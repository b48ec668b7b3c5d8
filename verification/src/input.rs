//! An input field: its text, what is selected of it, and editing it.

use vstd::prelude::*;

use crate::history::{Change, History};
use crate::layout::{find_index, LineHit};
use crate::position::{
    clip_to_left, clip_to_right, count_chars, find_line_end, find_line_start, offset_from_utf16,
    offset_of, offset_to_utf16, read_char_at,
};
use crate::rope::{rope_of, rope_replace, rope_text};
use crate::text::{chars_of, is_white_space, string_between, trim_start};
use crate::utf8::byte_len;
use ropey::Rope;

verus! {

/// How a field takes lines.
#[derive(Clone, Copy, Debug, PartialEq, Eq, Structural)]
pub enum InputMode {
    SingleLine,
    MultiLine { rows: usize },
    AutoGrow { rows: usize, min_rows: usize, max_rows: usize },
}

impl InputMode {
    /// Whether the limits of a field that grows are in order.
    pub open spec fn in_order(self) -> bool {
        match self {
            InputMode::AutoGrow { min_rows, max_rows, .. } => min_rows <= max_rows,
            _ => true,
        }
    }

    /// The mode with other rows, as far as it has any; one that grows keeps to its
    /// limits.
    pub open spec fn with_rows(self, new_rows: usize) -> InputMode {
        match self {
            InputMode::SingleLine => self,
            InputMode::MultiLine { .. } => InputMode::MultiLine { rows: new_rows },
            InputMode::AutoGrow { min_rows, max_rows, .. } => InputMode::AutoGrow {
                rows: if new_rows < min_rows {
                    min_rows
                } else if new_rows > max_rows {
                    max_rows
                } else {
                    new_rows
                },
                min_rows,
                max_rows,
            },
        }
    }

    pub fn is_single_line(&self) -> (r: bool)
        ensures
            r == (*self is SingleLine),
    {
        match self {
            InputMode::SingleLine => true,
            _ => false,
        }
    }

    pub fn is_auto_grow(&self) -> (r: bool)
        ensures
            r == (*self is AutoGrow),
    {
        match self {
            InputMode::AutoGrow { .. } => true,
            _ => false,
        }
    }

    pub fn is_multi_line(&self) -> (r: bool)
        ensures
            r == !(*self is SingleLine),
    {
        match self {
            InputMode::SingleLine => false,
            _ => true,
        }
    }

    pub fn set_rows(&mut self, new_rows: usize)
        requires
            old(self).in_order(),
        ensures
            *final(self) == old(self).with_rows(new_rows),
            final(self).in_order(),
    {
        match *self {
            InputMode::SingleLine => {},
            InputMode::MultiLine { .. } => {
                *self = InputMode::MultiLine { rows: new_rows };
            },
            InputMode::AutoGrow { min_rows, max_rows, .. } => {
                let rows: usize = if new_rows < min_rows {
                    min_rows
                } else if new_rows > max_rows {
                    max_rows
                } else {
                    new_rows
                };
                *self = InputMode::AutoGrow { rows, min_rows, max_rows };
            },
        }
    }

    /// Follows the number of lines that the text takes on the screen.
    pub fn update_auto_grow(&mut self, wrapped_lines: usize)
        requires
            old(self).in_order(),
        ensures
            *final(self) == old(self).with_rows(wrapped_lines),
            final(self).in_order(),
    {
        if self.is_single_line() {
            return;
        }
        self.set_rows(wrapped_lines);
    }

    /// At least 1 row be return.
    pub fn rows(&self) -> (r: usize)
        ensures
            r == (match *self {
                InputMode::SingleLine => 1,
                InputMode::MultiLine { rows } => if rows > 1 {
                    rows
                } else {
                    1
                },
                InputMode::AutoGrow { rows, .. } => if rows > 1 {
                    rows
                } else {
                    1
                },
            }),
    {
        let rows: usize = match *self {
            InputMode::SingleLine => 1,
            InputMode::MultiLine { rows } => rows,
            InputMode::AutoGrow { rows, .. } => rows,
        };
        if rows > 1 {
            rows
        } else {
            1
        }
    }

    /// At least 1 row be return.
    pub fn min_rows(&self) -> (r: usize)
        ensures
            r == (match *self {
                InputMode::AutoGrow { min_rows, .. } => if min_rows > 1 {
                    min_rows
                } else {
                    1
                },
                _ => 1,
            }),
    {
        match *self {
            InputMode::AutoGrow { min_rows, .. } => {
                if min_rows > 1 {
                    min_rows
                } else {
                    1
                }
            },
            _ => 1,
        }
    }

    pub fn max_rows(&self) -> (r: usize)
        ensures
            r == (match *self {
                InputMode::SingleLine => 1,
                InputMode::MultiLine { .. } => usize::MAX,
                InputMode::AutoGrow { max_rows, .. } => max_rows,
            }),
    {
        match *self {
            InputMode::SingleLine => 1,
            InputMode::MultiLine { .. } => usize::MAX,
            InputMode::AutoGrow { max_rows, .. } => max_rows,
        }
    }
}

/// A part of the text, by bytes.
#[derive(Clone, Copy, Debug, PartialEq, Eq, Structural)]
pub struct Selection {
    pub start: usize,
    pub end: usize,
}

/// What the surroundings of a field say of an edit.
#[derive(Clone, Copy, Debug, PartialEq, Eq, Structural)]
pub struct Surroundings {
    /// Whether the text that the edit leads to is a valid one. Text of several lines
    /// and an empty text always are.
    pub valid: bool,
    /// The time, in milliseconds.
    pub now: u64,
    /// How many lines the text takes on the screen after the edit.
    pub lines: usize,
}

/// An input field as a value.
#[verifier::ext_equal]
pub struct InputView {
    pub mode: InputMode,
    pub text: Seq<char>,
    pub history: crate::history::HistoryView,
    pub selected: Selection,
    /// The word that a double click has selected, which dragging keeps selected.
    pub word: Option<Selection>,
    /// Whether the cursor is where the selection starts.
    pub reversed: bool,
    /// Text that an input method has put in for now.
    pub marked: Option<Selection>,
    pub selecting: bool,
    pub disabled: bool,
    pub masked: bool,
    pub clean_on_escape: bool,
    pub soft_wrap: bool,
    pub loading: bool,
    pub placeholder: Seq<char>,
}

/// A selection of nothing.
pub open spec fn caret(at: int) -> Selection {
    Selection { start: at as usize, end: at as usize }
}

/// The boundary before an offset. One that would fall on a carriage return moves one
/// further.
pub open spec fn boundary_before(text: Seq<char>, at: int) -> int {
    let clipped = crate::position::clip_left(
        text,
        if at > 0 {
            at - 1
        } else {
            0
        },
    );
    if crate::position::char_at(text, clipped) == Some('\r') {
        clipped - 1
    } else {
        clipped
    }
}

/// The boundary after an offset. One that would fall on a carriage return moves one
/// further.
pub open spec fn boundary_after(text: Seq<char>, at: int) -> int {
    let clipped = crate::position::clip_right(text, at + 1);
    if crate::position::char_at(text, clipped) == Some('\r') {
        clipped + 1
    } else {
        clipped
    }
}

impl InputView {
    /// How many bytes the text takes.
    pub open spec fn size(self) -> int {
        crate::utf8::bytes(self.text)
    }

    /// Where the cursor is.
    pub open spec fn cursor(self) -> usize {
        match self.marked {
            Some(marked) => marked.end,
            None => if self.reversed {
                self.selected.start
            } else {
                self.selected.end
            },
        }
    }

    /// The part that an edit replaces: the one that it names in UTF-16, else what is
    /// marked, else what is selected.
    pub open spec fn target(self, range: Option<(usize, usize)>) -> (int, int) {
        match range {
            Some((start, end)) => (
                crate::position::from_utf16(self.text, start as int),
                crate::position::from_utf16(self.text, end as int),
            ),
            None => match self.marked {
                Some(marked) => (
                    crate::position::clip_left(self.text, marked.start as int),
                    crate::position::clip_left(self.text, marked.end as int),
                ),
                None => (self.selected.start as int, self.selected.end as int),
            },
        }
    }

    /// Whether an edit has a part to replace.
    pub open spec fn can_replace(self, range: Option<(usize, usize)>) -> bool {
        &&& self.mode.in_order()
        &&& match range {
            Some((start, end)) => start <= end,
            None => match self.marked {
                Some(marked) => marked.start <= marked.end,
                None => crate::rope::is_part(
                    self.text,
                    self.selected.start as int,
                    self.selected.end as int,
                ),
            },
        }
    }

    /// The text that replacing a part leads to.
    pub open spec fn pending(self, from: int, to: int, new_text: Seq<char>) -> Seq<char> {
        crate::rope::spliced(self.text, from, to, new_text)
    }

    /// Whether an edit is taken: the field is not disabled, and the text of a single
    /// line is a valid one.
    pub open spec fn takes(
        self,
        from: int,
        to: int,
        new_text: Seq<char>,
        around: Surroundings,
    ) -> bool {
        &&& !self.disabled
        &&& self.mode is SingleLine && self.pending(from, to, new_text).len() > 0 ==> around.valid
    }

    /// The history with an edit recorded, unless it is not to be.
    pub open spec fn recorded(
        self,
        history: crate::history::HistoryView,
        from: int,
        to: int,
        new_text: Seq<char>,
        now: u64,
    ) -> crate::history::HistoryView {
        if history.ignore {
            history
        } else {
            history.pushed(
                crate::history::ChangeView {
                    start: from,
                    old_end: to,
                    old_text: self.text.subrange(
                        crate::position::floor(self.text, from),
                        crate::position::floor(self.text, to),
                    ),
                    new_end: from + crate::utf8::bytes(new_text),
                    new_text,
                    version: 0,
                },
                now,
            )
        }
    }

    /// A part of the text is replaced, if the edit is taken. The cursor goes to the
    /// end of what was put in.
    pub open spec fn edited(
        self,
        from: int,
        to: int,
        new_text: Seq<char>,
        around: Surroundings,
    ) -> InputView {
        if self.takes(from, to, new_text, around) {
            InputView {
                text: self.pending(from, to, new_text),
                history: crate::history::HistoryView {
                    grouping: false,
                    ..self.recorded(self.history, from, to, new_text, around.now)
                },
                selected: caret(from + crate::utf8::bytes(new_text)),
                marked: None,
                mode: self.mode.with_rows(around.lines),
                ..self
            }
        } else {
            self
        }
    }

    /// An edit of the part that [`Self::target`] names.
    pub open spec fn replaced(
        self,
        range: Option<(usize, usize)>,
        new_text: Seq<char>,
        around: Surroundings,
    ) -> InputView {
        let (from, to) = self.target(range);
        self.edited(from, to, new_text, around)
    }

    /// Whether an edit of the part that [`Self::target`] names is taken.
    pub open spec fn takes_replacement(
        self,
        range: Option<(usize, usize)>,
        new_text: Seq<char>,
        around: Surroundings,
    ) -> bool {
        let (from, to) = self.target(range);
        self.takes(from, to, new_text, around)
    }

    /// An edit of the part between two byte offsets, each moved to a boundary.
    pub open spec fn cut_out(
        self,
        from: int,
        to: int,
        new_text: Seq<char>,
        around: Surroundings,
    ) -> InputView {
        self.edited(
            crate::position::clip_left(self.text, from),
            crate::position::clip_left(self.text, to),
            new_text,
            around,
        )
    }

    /// The selection runs from where it was begun to an offset.
    pub open spec fn selected_to(self, offset: int) -> InputView {
        let at = if offset <= self.size() {
            offset
        } else {
            self.size()
        };
        let moved = if self.reversed {
            Selection { start: at as usize, ..self.selected }
        } else {
            Selection { end: at as usize, ..self.selected }
        };
        let (turned, reversed) = if moved.end < moved.start {
            (Selection { start: moved.end, end: moved.start }, !self.reversed)
        } else {
            (moved, self.reversed)
        };
        let selected = match self.word {
            Some(word) => Selection {
                start: if turned.start > word.start {
                    word.start
                } else {
                    turned.start
                },
                end: if turned.end < word.end {
                    word.end
                } else {
                    turned.end
                },
            },
            None => turned,
        };
        InputView { selected, reversed, ..self }
    }

    /// The cursor goes to an offset, and nothing is selected.
    pub open spec fn moved_to(self, offset: int) -> InputView {
        InputView {
            selected: caret(
                if offset <= self.size() {
                    offset
                } else {
                    self.size()
                },
            ),
            ..self
        }
    }

    /// Where the line of the cursor starts.
    pub open spec fn start_of_line(self) -> int {
        if self.mode is SingleLine {
            0
        } else {
            crate::utf8::offset(
                self.text,
                crate::position::line_start(
                    self.text,
                    crate::position::floor(self.text, self.cursor() as int),
                ),
            )
        }
    }

    /// Where the word before the selection starts.
    pub open spec fn previous_word(self) -> int {
        let left = self.text.take(crate::position::floor(self.text, self.selected.start as int));
        last_word(word_pieces(left), word_pieces(left).len() as int)
    }

    /// Where the word after the cursor ends; the end of the text where there is none.
    pub open spec fn next_word(self) -> int {
        let at = crate::position::floor(self.text, self.cursor() as int);
        match first_word(word_pieces(self.text.skip(at)), 0) {
            Some(end) => crate::utf8::offset(self.text, at) + end,
            None => self.size(),
        }
    }

    /// Where the line of the cursor ends.
    pub open spec fn end_of_line(self) -> int {
        if self.mode is SingleLine {
            self.size()
        } else {
            crate::utf8::offset(
                self.text,
                crate::position::line_end(
                    self.text,
                    crate::position::floor(self.text, self.cursor() as int),
                ),
            )
        }
    }
}

/// The pieces of a text between its word boundaries, in order: what
/// `unicode_segmentation::UnicodeSegmentation::split_word_bounds` gives.
pub uninterp spec fn word_pieces(text: Seq<char>) -> Seq<Seq<char>>;

/// Texts laid end to end.
pub open spec fn joined(pieces: Seq<Seq<char>>) -> Seq<char>
    decreases pieces.len(),
{
    if pieces.len() == 0 {
        Seq::empty()
    } else {
        joined(pieces.drop_last()) + pieces.last()
    }
}

/// `unicode_segmentation::UnicodeSegmentation::split_word_bounds` splits a text at
/// its word boundaries. Laid end to end, the pieces are the text.
#[verifier::external_body]
fn split_words(text: &str) -> (r: Vec<String>)
    ensures
        crate::text::views(r@) == word_pieces(text@),
        joined(crate::text::views(r@)) == text@,
{
    let pieces = unicode_segmentation::UnicodeSegmentation::split_word_bounds(text);
    pieces.map(|piece| piece.to_owned()).collect()
}

/// Whether a character is a letter or a number: what `char::is_alphanumeric` says.
pub uninterp spec fn alphanumeric(c: char) -> bool;

/// `char::is_alphanumeric` says whether a character is a letter or a number.
#[verifier::external_body]
fn is_alphanumeric(c: char) -> (r: bool)
    ensures
        r == alphanumeric(c),
{
    c.is_alphanumeric()
}

/// Whether a character is part of a word.
pub open spec fn in_word(c: char) -> bool {
    alphanumeric(c) || c == '_'
}

/// How many bytes the first `n` pieces take.
pub open spec fn pieces_size(pieces: Seq<Seq<char>>, n: int) -> int {
    crate::utf8::bytes(joined(pieces.take(n)))
}

/// Whether a piece is nothing but white space.
pub open spec fn blank(piece: Seq<char>) -> bool {
    crate::text::trimmed_start(piece).len() == 0
}

/// Where the last of the first `n` pieces starts that is not blank.
pub open spec fn last_word(pieces: Seq<Seq<char>>, n: int) -> int
    decreases n,
{
    if n <= 0 {
        0
    } else if !blank(pieces[n - 1]) {
        pieces_size(pieces, n - 1)
    } else {
        last_word(pieces, n - 1)
    }
}

/// Where the first piece ends that is not blank, from the `n`-th on.
pub open spec fn first_word(pieces: Seq<Seq<char>>, n: int) -> Option<int>
    decreases pieces.len() - n,
{
    if n >= pieces.len() {
        None
    } else if !blank(pieces[n]) {
        Some(pieces_size(pieces, n + 1))
    } else {
        first_word(pieces, n + 1)
    }
}

proof fn lemma_pieces_size(pieces: Seq<Seq<char>>, n: int)
    requires
        0 <= n <= pieces.len(),
    ensures
        0 <= pieces_size(pieces, n) <= crate::utf8::bytes(joined(pieces)),
        joined(pieces.take(n)) == joined(pieces).take(joined(pieces.take(n)).len() as int),
        joined(pieces.take(n)).len() <= joined(pieces).len(),
        n < pieces.len() ==> pieces_size(pieces, n + 1) == pieces_size(pieces, n)
            + crate::utf8::bytes(pieces[n]),
    decreases pieces.len(),
{
    assert(pieces.take(pieces.len() as int) =~= pieces);
    if n < pieces.len() {
        let init = pieces.drop_last();
        lemma_pieces_size(init, n);
        assert(init.take(n) =~= pieces.take(n));
        crate::utf8::lemma_bytes_concat(joined(init), pieces.last());
        crate::utf8::lemma_bytes_at_least(pieces.last());
        assert(pieces.take(n + 1).drop_last() =~= pieces.take(n));
        crate::utf8::lemma_bytes_concat(joined(pieces.take(n)), pieces[n]);
        let k = joined(pieces.take(n)).len() as int;
        assert(joined(pieces).take(k) =~= joined(init).take(k));
    } else {
        assert(joined(pieces).take(joined(pieces).len() as int) =~= joined(pieces));
        crate::utf8::lemma_bytes_at_least(joined(pieces));
    }
}

/// An input field.
pub struct InputState {
    mode: InputMode,
    text: Rope,
    history: History,
    selected: Selection,
    word: Option<Selection>,
    reversed: bool,
    marked: Option<Selection>,
    selecting: bool,
    disabled: bool,
    masked: bool,
    clean_on_escape: bool,
    soft_wrap: bool,
    loading: bool,
    placeholder: String,
}

impl View for InputState {
    type V = InputView;

    closed spec fn view(&self) -> InputView {
        InputView {
            mode: self.mode,
            text: crate::rope::contents(self.text),
            history: self.history@,
            selected: self.selected,
            word: self.word,
            reversed: self.reversed,
            marked: self.marked,
            selecting: self.selecting,
            disabled: self.disabled,
            masked: self.masked,
            clean_on_escape: self.clean_on_escape,
            soft_wrap: self.soft_wrap,
            loading: self.loading,
            placeholder: self.placeholder@,
        }
    }
}

impl InputState {
    /// An empty field of a single line.
    pub fn new() -> (r: Self)
        ensures
            r@ == (InputView {
                mode: InputMode::SingleLine,
                text: Seq::empty(),
                history: crate::history::HistoryView::empty(),
                selected: Selection { start: 0, end: 0 },
                word: None,
                reversed: false,
                marked: None,
                selecting: false,
                disabled: false,
                masked: false,
                clean_on_escape: false,
                soft_wrap: true,
                loading: false,
                placeholder: Seq::empty(),
            }),
    {
        let empty = String::new();
        let state = InputState {
            mode: InputMode::SingleLine,
            text: rope_of(&empty),
            history: History::new(),
            selected: Selection { start: 0, end: 0 },
            word: None,
            reversed: false,
            marked: None,
            selecting: false,
            disabled: false,
            masked: false,
            clean_on_escape: false,
            soft_wrap: true,
            loading: false,
            placeholder: String::new(),
        };
        assert(state@.text =~= Seq::<char>::empty());
        assert(state@.placeholder =~= Seq::<char>::empty());
        state
    }

    /// Return the value of the input field.
    pub fn value(&self) -> (r: String)
        ensures
            r@ == self@.text,
    {
        rope_text(&self.text)
    }

    /// The text by characters, and how many bytes it takes.
    fn read(&self) -> (r: (Vec<char>, usize))
        ensures
            r.0@ == self@.text,
            r.1 == self@.size(),
    {
        let text = rope_text(&self.text);
        (chars_of(&text), byte_len(&text))
    }

    /// Get byte offset of the cursor.
    ///
    /// The offset is the UTF-8 offset.
    pub fn cursor(&self) -> (r: usize)
        ensures
            r == self@.cursor(),
    {
        match self.marked {
            Some(marked) => marked.end,
            None => {
                if self.reversed {
                    self.selected.start
                } else {
                    self.selected.end
                }
            },
        }
    }

    /// The text that an edit would lead to, to be told whether it is valid. Nothing
    /// where it needs no telling.
    pub fn to_validate(&self, range: Option<(usize, usize)>, new_text: &str) -> (r: Option<String>)
        requires
            self@.can_replace(range),
        ensures
            crate::text::opt_view(r) == ({
                let (from, to) = self@.target(range);
                let pending = self@.pending(from, to, new_text@);
                if self@.mode is SingleLine && !self@.disabled && pending.len() > 0 {
                    Some(pending)
                } else {
                    None
                }
            }),
    {
        if self.disabled || !self.mode.is_single_line() {
            return None;
        }
        let (from, to) = self.find_target(range);
        let text = rope_text(&self.text);
        let mut rope = rope_of(&text);
        rope_replace(&mut rope, from, to, new_text);
        let pending = rope_text(&rope);
        if pending.as_str().is_empty() {
            None
        } else {
            Some(pending)
        }
    }

    fn find_target(&self, range: Option<(usize, usize)>) -> (r: (usize, usize))
        requires
            self@.can_replace(range),
        ensures
            (r.0 as int, r.1 as int) == self@.target(range),
            crate::rope::is_part(self@.text, r.0 as int, r.1 as int),
    {
        let (chars, _) = self.read();
        match range {
            Some((start, end)) => {
                proof {
                    crate::position::lemma_from_utf16_keeps_order(
                        self@.text,
                        start as int,
                        end as int,
                    );
                }
                (offset_from_utf16(&chars, start), offset_from_utf16(&chars, end))
            },
            None => match self.marked {
                Some(marked) => {
                    proof {
                        crate::position::lemma_clip_keeps_order(
                            self@.text,
                            marked.start as int,
                            marked.end as int,
                        );
                    }
                    (clip_to_left(&chars, marked.start), clip_to_left(&chars, marked.end))
                },
                None => (self.selected.start, self.selected.end),
            },
        }
    }

    /// Replaces a part of the text; see [`InputView::edited`]. Says whether it did.
    fn edit(&mut self, from: usize, to: usize, new_text: &str, around: Surroundings) -> (r: bool)
        requires
            old(self)@.mode.in_order(),
            crate::rope::is_part(old(self)@.text, from as int, to as int),
        ensures
            final(self)@ == old(self)@.edited(from as int, to as int, new_text@, around),
            r == old(self)@.takes(from as int, to as int, new_text@, around),
    {
        if self.disabled {
            return false;
        }
        let ghost before = self@.text;
        proof {
            crate::rope::lemma_part(before, from as int, to as int);
        }
        let (chars, _) = self.read();
        let text = rope_text(&self.text);
        let mut rope = rope_of(&text);
        rope_replace(&mut rope, from, to, new_text);
        let pending = rope_text(&rope);
        if self.mode.is_single_line() && !pending.as_str().is_empty() && !around.valid {
            return false;
        }
        let total: usize = byte_len(&pending);
        proof {
            crate::rope::law_replacing_back_restores(before, from as int, to as int, new_text@);
            crate::rope::lemma_part(
                pending@,
                from as int,
                from + crate::utf8::bytes(new_text@),
            );
        }
        let end: usize = from + byte_len(new_text);
        let (a, _) = count_chars(&chars, from);
        let (b, _) = count_chars(&chars, to);
        let old_text = string_between(&chars, a, b);
        if !self.history.is_ignoring() {
            self.history.push(
                Change {
                    start: from,
                    old_end: to,
                    old_text,
                    new_end: end,
                    new_text: new_text.to_owned(),
                    version: 0,
                },
                around.now,
            );
        }
        self.history.end_grouping();
        self.text = rope;
        self.selected = Selection { start: end, end };
        self.marked = None;
        self.mode.update_auto_grow(around.lines);
        assert(self@ =~= old(self)@.edited(from as int, to as int, new_text@, around));
        true
    }

    /// Replace text in range.
    ///
    /// - If the new text is invalid, it will not be replaced.
    /// - If `range` is not provided, the current selected range will be used.
    ///
    /// The range is in UTF-16. Says whether the text has changed.
    pub fn replace_text_in_range(
        &mut self,
        range: Option<(usize, usize)>,
        new_text: &str,
        around: Surroundings,
    ) -> (r: bool)
        requires
            old(self)@.can_replace(range),
        ensures
            final(self)@ == old(self)@.replaced(range, new_text@, around),
            r == old(self)@.takes_replacement(range, new_text@, around),
    {
        let (from, to) = self.find_target(range);
        self.edit(from, to, new_text, around)
    }

    /// Replace text in range in silent.
    ///
    /// This will not trigger any UI interaction, such as auto-completion.
    pub fn replace_text_in_range_silent(
        &mut self,
        range: Option<(usize, usize)>,
        new_text: &str,
        around: Surroundings,
    )
        requires
            old(self)@.can_replace(range),
        ensures
            final(self)@ == old(self)@.replaced(range, new_text@, around),
    {
        self.replace_text_in_range(range, new_text, around);
    }

    /// Replaces the part between two byte offsets; see [`InputView::cut_out`].
    fn edit_bytes(&mut self, from: usize, to: usize, new_text: &str, around: Surroundings) -> (r:
        bool)
        requires
            old(self)@.mode.in_order(),
            from <= to,
        ensures
            final(self)@ == old(self)@.cut_out(from as int, to as int, new_text@, around),
            r == old(self)@.takes(
                crate::position::clip_left(old(self)@.text, from as int),
                crate::position::clip_left(old(self)@.text, to as int),
                new_text@,
                around,
            ),
    {
        let (chars, _) = self.read();
        proof {
            crate::position::lemma_clip_keeps_order(self@.text, from as int, to as int);
        }
        let a: usize = clip_to_left(&chars, from);
        let b: usize = clip_to_left(&chars, to);
        self.edit(a, b, new_text, around)
    }
}

impl InputState {
    /// Return the start offset of the previous word.
    pub fn previous_start_of_word(&self) -> (r: usize)
        ensures
            r == self@.previous_word(),
            r <= self@.size(),
    {
        let (chars, _) = self.read();
        let (k, _) = count_chars(&chars, self.selected.start);
        let left = string_between(&chars, 0, k);
        let pieces = split_words(&left);
        let ghost all = crate::text::views(pieces@);
        let ghost text = self@.text;
        proof {
            assert(text.subrange(0, k as int) =~= text.take(k as int));
            crate::position::lemma_floor_of_offset(text, k as int);
            assert(all.take(all.len() as int) =~= all);
            lemma_pieces_size(all, all.len() as int);
        }
        let mut sizes: Vec<usize> = Vec::new();
        let mut total: usize = 0;
        let mut i: usize = 0;
        assert(all.take(0) =~= Seq::<Seq<char>>::empty());
        while i < pieces.len()
            invariant
                i <= pieces@.len(),
                all == crate::text::views(pieces@),
                sizes@.len() == i,
                total == pieces_size(all, i as int),
                crate::utf8::bytes(joined(all)) <= usize::MAX,
                forall|j: int| 0 <= j < i ==> #[trigger] sizes@[j] == pieces_size(all, j),
            decreases pieces@.len() - i,
        {
            proof {
                lemma_pieces_size(all, i as int);
                lemma_pieces_size(all, i + 1);
            }
            sizes.push(total);
            total = total + byte_len(&pieces[i]);
            i = i + 1;
        }
        while i > 0
            invariant
                i <= pieces@.len(),
                all == crate::text::views(pieces@),
                sizes@.len() == pieces@.len(),
                forall|j: int|
                    0 <= j < sizes@.len() ==> #[trigger] sizes@[j] == pieces_size(all, j),
                self@.previous_word() == last_word(all, i as int),
                crate::utf8::bytes(joined(all)) <= self@.size(),
            decreases i,
        {
            if !trim_start(&pieces[i - 1]).as_str().is_empty() {
                proof {
                    lemma_pieces_size(all, i - 1);
                }
                return sizes[i - 1];
            }
            i = i - 1;
        }
        proof {
            crate::utf8::lemma_bytes_at_least(self@.text);
        }
        0
    }

    /// Return the next end offset of the next word.
    pub fn next_end_of_word(&self) -> (r: usize)
        ensures
            r == self@.next_word(),
            r <= self@.size(),
    {
        let (chars, size) = self.read();
        let (k, offset) = count_chars(&chars, self.cursor());
        let right = string_between(&chars, k, chars.len());
        let pieces = split_words(&right);
        let ghost all = crate::text::views(pieces@);
        let ghost text = self@.text;
        proof {
            assert(text.subrange(k as int, text.len() as int) =~= text.skip(k as int));
            crate::utf8::lemma_offset_increases(text, k as int, text.len() as int);
            assert(text.take(text.len() as int) =~= text);
            assert(all.take(0) =~= Seq::<Seq<char>>::empty());
        }
        let mut total: usize = 0;
        let mut i: usize = 0;
        while i < pieces.len()
            invariant
                i <= pieces@.len(),
                all == crate::text::views(pieces@),
                total == pieces_size(all, i as int),
                offset + crate::utf8::bytes(joined(all)) == size,
                size == self@.size(),
                first_word(all, 0) == first_word(all, i as int),
                offset == crate::utf8::offset(self@.text, k as int),
                k == crate::position::floor(self@.text, self@.cursor() as int),
                all == word_pieces(self@.text.skip(k as int)),
            decreases pieces@.len() - i,
        {
            proof {
                lemma_pieces_size(all, i as int);
                lemma_pieces_size(all, i + 1);
            }
            total = total + byte_len(&pieces[i]);
            if !trim_start(&pieces[i]).as_str().is_empty() {
                return offset + total;
            }
            i = i + 1;
        }
        size
    }

    /// Get start of line byte offset of cursor
    pub fn start_of_line(&self) -> (r: usize)
        ensures
            r == self@.start_of_line(),
            r <= self@.size(),
            r <= self@.cursor(),
            crate::position::boundary(self@.text, r as int),
    {
        let (chars, _) = self.read();
        let (k, offset) = count_chars(&chars, self.cursor());
        proof {
            assert(self@.text.take(0) =~= Seq::<char>::empty());
            crate::position::lemma_floor_of_offset(self@.text, 0);
        }
        if self.mode.is_single_line() {
            return 0;
        }
        let start: usize = find_line_start(&chars, k);
        proof {
            crate::utf8::lemma_offset_increases(self@.text, start as int, k as int);
            crate::position::lemma_floor_of_offset(self@.text, start as int);
        }
        offset_of(&chars, start)
    }

    /// Get end of line byte offset of cursor
    pub fn end_of_line(&self) -> (r: usize)
        ensures
            r == self@.end_of_line(),
            r <= self@.size(),
            crate::position::boundary(self@.text, r as int),
            crate::position::clip_left(self@.text, self@.cursor() as int) <= r,
    {
        let (chars, size) = self.read();
        let (k, offset) = count_chars(&chars, self.cursor());
        proof {
            assert(self@.text.take(self@.text.len() as int) =~= self@.text);
            crate::position::lemma_floor_of_offset(self@.text, self@.text.len() as int);
            crate::position::lemma_floor_of_offset(self@.text, k as int);
        }
        if self.mode.is_single_line() {
            return size;
        }
        let end: usize = find_line_end(&chars, k);
        proof {
            crate::utf8::lemma_offset_increases(self@.text, k as int, end as int);
            crate::position::lemma_floor_of_offset(self@.text, end as int);
        }
        offset_of(&chars, end)
    }

    pub fn previous_boundary(&self, offset: usize) -> (r: usize)
        requires
            boundary_before(self@.text, offset as int) >= 0,
        ensures
            r == boundary_before(self@.text, offset as int),
            r <= offset,
    {
        let (chars, _) = self.read();
        let before: usize = if offset > 0 {
            offset - 1
        } else {
            0
        };
        let clipped: usize = clip_to_left(&chars, before);
        match read_char_at(&chars, clipped) {
            Some('\r') => clipped - 1,
            _ => clipped,
        }
    }

    pub fn next_boundary(&self, offset: usize) -> (r: usize)
        requires
            offset < usize::MAX,
        ensures
            r == boundary_after(self@.text, offset as int),
            r <= self@.size(),
    {
        let (chars, size) = self.read();
        let clipped: usize = clip_to_right(&chars, offset + 1);
        let found = read_char_at(&chars, clipped);
        match found {
            Some('\r') => {
                proof {
                    crate::position::lemma_floor(self@.text, clipped as int);
                    let k = crate::position::floor(self@.text, clipped as int);
                    crate::utf8::lemma_offset_step(self@.text, k);
                    crate::position::lemma_floor_of_offset(self@.text, k + 1);
                }
                clipped + 1
            },
            _ => clipped,
        }
    }

    /// Select the text from the current cursor position to the given offset.
    ///
    /// The offset is the UTF-8 offset.
    pub fn select_to(&mut self, offset: usize)
        ensures
            final(self)@ == old(self)@.selected_to(offset as int),
    {
        let text = rope_text(&self.text);
        let size: usize = byte_len(&text);
        let at: usize = if offset <= size {
            offset
        } else {
            size
        };
        if self.reversed {
            self.selected.start = at;
        } else {
            self.selected.end = at;
        }
        if self.selected.end < self.selected.start {
            self.reversed = !self.reversed;
            self.selected = Selection { start: self.selected.end, end: self.selected.start };
        }
        if let Some(word) = self.word {
            if self.selected.start > word.start {
                self.selected.start = word.start;
            }
            if self.selected.end < word.end {
                self.selected.end = word.end;
            }
        }
    }

    /// Moves the cursor, and selects nothing.
    pub fn move_to(&mut self, offset: usize)
        ensures
            final(self)@ == old(self)@.moved_to(offset as int),
    {
        let text = rope_text(&self.text);
        let size: usize = byte_len(&text);
        let at: usize = if offset <= size {
            offset
        } else {
            size
        };
        self.selected = Selection { start: at, end: at };
    }

    pub fn select_left(&mut self)
        requires
            boundary_before(old(self)@.text, old(self)@.cursor() as int) >= 0,
        ensures
            final(self)@ == old(self)@.selected_to(
                boundary_before(old(self)@.text, old(self)@.cursor() as int),
            ),
    {
        let offset: usize = self.previous_boundary(self.cursor());
        self.select_to(offset);
    }

    pub fn select_right(&mut self)
        requires
            old(self)@.cursor() < usize::MAX,
        ensures
            final(self)@ == old(self)@.selected_to(
                boundary_after(old(self)@.text, old(self)@.cursor() as int),
            ),
    {
        let offset: usize = self.next_boundary(self.cursor());
        self.select_to(offset);
    }

    /// Selects to the line above, if there can be one.
    pub fn select_up(&mut self)
        requires
            boundary_before(
                old(self)@.text,
                if old(self)@.start_of_line() > 0 {
                    old(self)@.start_of_line() - 1
                } else {
                    0
                },
            ) >= 0,
        ensures
            final(self)@ == (if old(self)@.mode is SingleLine {
                old(self)@
            } else {
                old(self)@.selected_to(
                    boundary_before(
                        old(self)@.text,
                        if old(self)@.start_of_line() > 0 {
                            old(self)@.start_of_line() - 1
                        } else {
                            0
                        },
                    ),
                )
            }),
    {
        if self.mode.is_single_line() {
            return;
        }
        let start: usize = self.start_of_line();
        let above: usize = if start > 0 {
            start - 1
        } else {
            0
        };
        let offset: usize = self.previous_boundary(above);
        self.select_to(offset);
    }

    /// Selects to the line below, if there can be one.
    pub fn select_down(&mut self)
        requires
            old(self)@.size() < usize::MAX,
        ensures
            final(self)@ == (if old(self)@.mode is SingleLine {
                old(self)@
            } else {
                old(self)@.selected_to(
                    boundary_after(
                        old(self)@.text,
                        if old(self)@.end_of_line() + 1 <= old(self)@.size() {
                            old(self)@.end_of_line() + 1
                        } else {
                            old(self)@.size()
                        },
                    ),
                )
            }),
    {
        if self.mode.is_single_line() {
            return;
        }
        let (_, size) = self.read();
        let end: usize = self.end_of_line();
        let below: usize = if end < size {
            end + 1
        } else {
            size
        };
        let offset: usize = self.next_boundary(below);
        self.select_to(offset);
    }

    pub fn select_all(&mut self)
        ensures
            final(self)@ == (InputView {
                selected: Selection { start: 0, end: old(self)@.size() as usize },
                reversed: false,
                ..old(self)@
            }),
    {
        let (_, size) = self.read();
        self.selected = Selection { start: 0, end: size };
        self.reversed = false;
    }

    pub fn select_to_start(&mut self)
        ensures
            final(self)@ == old(self)@.selected_to(0),
    {
        self.select_to(0);
    }

    pub fn select_to_end(&mut self)
        ensures
            final(self)@ == old(self)@.selected_to(old(self)@.size()),
    {
        let (_, size) = self.read();
        self.select_to(size);
    }

    pub fn select_to_start_of_line(&mut self)
        ensures
            final(self)@ == old(self)@.selected_to(old(self)@.start_of_line()),
    {
        let offset: usize = self.start_of_line();
        self.select_to(offset);
    }

    pub fn select_to_end_of_line(&mut self)
        ensures
            final(self)@ == old(self)@.selected_to(old(self)@.end_of_line()),
    {
        let offset: usize = self.end_of_line();
        self.select_to(offset);
    }

    pub fn select_to_previous_word(&mut self)
        ensures
            final(self)@ == old(self)@.selected_to(old(self)@.previous_word()),
    {
        let offset: usize = self.previous_start_of_word();
        self.select_to(offset);
    }

    pub fn select_to_next_word(&mut self)
        ensures
            final(self)@ == old(self)@.selected_to(old(self)@.next_word()),
    {
        let offset: usize = self.next_end_of_word();
        self.select_to(offset);
    }

    /// Unselects the currently selected text.
    pub fn unselect(&mut self)
        ensures
            final(self)@ == (InputView {
                selected: caret(old(self)@.cursor() as int),
                ..old(self)@
            }),
    {
        let offset: usize = self.cursor();
        self.selected = Selection { start: offset, end: offset };
    }
}

impl InputView {
    /// What is selected by going one boundary back, if nothing is selected yet.
    pub open spec fn back_selected(self) -> InputView {
        if self.selected.start == self.selected.end {
            self.selected_to(boundary_before(self.text, self.cursor() as int))
        } else {
            self
        }
    }

    /// What is selected by going one boundary ahead, if nothing is selected yet.
    pub open spec fn ahead_selected(self) -> InputView {
        if self.selected.start == self.selected.end {
            self.selected_to(boundary_after(self.text, self.cursor() as int))
        } else {
            self
        }
    }

    /// Whether there is a boundary to go back to and a part to delete.
    pub open spec fn can_backspace(self) -> bool {
        &&& self.selected.start == self.selected.end ==> boundary_before(
            self.text,
            self.cursor() as int,
        ) >= 0
        &&& self.back_selected().can_replace(None)
    }

    /// Whether there is a part to delete ahead.
    pub open spec fn can_delete(self) -> bool {
        &&& self.cursor() < usize::MAX
        &&& self.ahead_selected().can_replace(None)
    }

    /// What is deleted where something is selected, and a part of it where nothing is.
    pub open spec fn deleted(self, from: int, to: int, around: Surroundings) -> InputView {
        if self.selected.start != self.selected.end {
            self.replaced(None, Seq::empty(), around)
        } else {
            self.cut_out(from, to, Seq::empty(), around)
        }
    }

    /// Whether the deletion is taken.
    pub open spec fn takes_deletion(self, from: int, to: int, around: Surroundings) -> bool {
        if self.selected.start != self.selected.end {
            self.takes_replacement(None, Seq::empty(), around)
        } else {
            self.takes(
                crate::position::clip_left(self.text, from),
                crate::position::clip_left(self.text, to),
                Seq::empty(),
                around,
            )
        }
    }

    /// Whether what is selected can be deleted, or a part of it.
    pub open spec fn can_delete_part(self, from: int, to: int) -> bool {
        if self.selected.start != self.selected.end {
            self.can_replace(None)
        } else {
            self.mode.in_order() && from <= to
        }
    }

    /// Where deleting to the beginning of the line starts: the beginning, or the line
    /// break before it.
    pub open spec fn line_deletion_start(self) -> int {
        if self.start_of_line() == self.cursor() {
            if self.start_of_line() > 0 {
                self.start_of_line() - 1
            } else {
                0
            }
        } else {
            self.start_of_line()
        }
    }

    /// Where deleting to the end of the line ends: the end, or the line break after it.
    pub open spec fn line_deletion_end(self) -> int {
        if self.end_of_line() == self.cursor() && self.end_of_line() < self.size() {
            self.end_of_line() + 1
        } else {
            self.end_of_line()
        }
    }

    /// The whole text is replaced.
    pub open spec fn overwritten(self, value: Seq<char>, around: Surroundings) -> InputView {
        self.edited(0, self.size(), value, around)
    }

    /// The text is emptied, and nothing is selected.
    pub open spec fn cleaned(self, around: Surroundings) -> InputView {
        InputView {
            selected: Selection { start: 0, end: 0 },
            ..self.overwritten(Seq::empty(), around)
        }
    }

    /// The field while its value is set: it takes edits, and does not record them.
    pub open spec fn unlocked(self) -> InputView {
        InputView {
            history: crate::history::HistoryView { ignore: true, ..self.history },
            disabled: false,
            ..self
        }
    }

    /// The value is set, without a trace in the history and even if the field is
    /// disabled. The cursor goes to the start.
    pub open spec fn with_value(self, value: Seq<char>, around: Surroundings) -> InputView {
        let after = self.unlocked().overwritten(value, around);
        InputView {
            history: crate::history::HistoryView { ignore: false, ..after.history },
            disabled: self.disabled,
            selected: Selection { start: 0, end: 0 },
            ..after
        }
    }

    /// The offset that an index into the text as it is drawn stands for. Masked text is
    /// drawn as one dot, of three bytes, for each character.
    pub open spec fn drawn_at(self, index: int) -> int {
        if self.masked {
            crate::utf8::offset(
                self.text,
                if index / 3 <= self.text.len() {
                    index / 3
                } else {
                    self.text.len() as int
                },
            )
        } else if index > self.size() {
            self.size()
        } else {
            index
        }
    }

    /// Nothing is selected, and the cursor is where the selection ended.
    pub open spec fn collapsed(self) -> InputView {
        InputView { selected: caret(self.selected.end as int), ..self }
    }
}

/// A text without its line breaks.
pub open spec fn on_one_line(text: Seq<char>) -> Seq<char> {
    text.filter(|c: char| c != '\n')
}

fn join_lines(text: &str) -> (r: String)
    ensures
        r@ == on_one_line(text@),
{
    let chars = chars_of(text);
    let ghost keep = |c: char| c != '\n';
    let mut out = String::new();
    proof {
        reveal(Seq::filter);
        assert(text@.take(0) =~= Seq::<char>::empty());
    }
    for i in 0..chars.len()
        invariant
            chars@ == text@,
            keep == (|c: char| c != '\n'),
            out@ == text@.take(i as int).filter(keep),
    {
        proof {
            reveal(Seq::filter);
            assert(text@.take(i + 1).drop_last() =~= text@.take(i as int));
        }
        if chars[i] != '\n' {
            out.push(chars[i]);
        }
    }
    assert(text@.take(text@.len() as int) =~= text@);
    out
}

impl InputState {
    pub fn backspace(&mut self, around: Surroundings) -> (r: bool)
        requires
            old(self)@.can_backspace(),
        ensures
            final(self)@ == old(self)@.back_selected().replaced(None, Seq::empty(), around),
            r == old(self)@.back_selected().takes_replacement(None, Seq::empty(), around),
    {
        if self.selected.start == self.selected.end {
            let offset: usize = self.previous_boundary(self.cursor());
            self.select_to(offset);
        }
        let empty = String::new();
        assert(empty@ =~= Seq::<char>::empty());
        self.replace_text_in_range(None, &empty, around)
    }

    pub fn delete(&mut self, around: Surroundings) -> (r: bool)
        requires
            old(self)@.can_delete(),
        ensures
            final(self)@ == old(self)@.ahead_selected().replaced(None, Seq::empty(), around),
            r == old(self)@.ahead_selected().takes_replacement(None, Seq::empty(), around),
    {
        if self.selected.start == self.selected.end {
            let offset: usize = self.next_boundary(self.cursor());
            self.select_to(offset);
        }
        let empty = String::new();
        assert(empty@ =~= Seq::<char>::empty());
        self.replace_text_in_range(None, &empty, around)
    }

    fn delete_part(&mut self, from: usize, to: usize, around: Surroundings) -> (r: bool)
        requires
            old(self)@.can_delete_part(from as int, to as int),
        ensures
            final(self)@ == old(self)@.deleted(from as int, to as int, around),
            r == old(self)@.takes_deletion(from as int, to as int, around),
    {
        let empty = String::new();
        assert(empty@ =~= Seq::<char>::empty());
        if self.selected.start != self.selected.end {
            self.replace_text_in_range(None, &empty, around)
        } else {
            self.edit_bytes(from, to, &empty, around)
        }
    }

    pub fn delete_to_beginning_of_line(&mut self, around: Surroundings) -> (r: bool)
        requires
            old(self)@.can_delete_part(
                old(self)@.line_deletion_start(),
                old(self)@.cursor() as int,
            ),
        ensures
            final(self)@ == old(self)@.deleted(
                old(self)@.line_deletion_start(),
                old(self)@.cursor() as int,
                around,
            ),
            r == old(self)@.takes_deletion(
                old(self)@.line_deletion_start(),
                old(self)@.cursor() as int,
                around,
            ),
    {
        let start: usize = self.start_of_line();
        let cursor: usize = self.cursor();
        let from: usize = if start == cursor && start > 0 {
            start - 1
        } else {
            start
        };
        self.delete_part(from, cursor, around)
    }

    pub fn delete_to_end_of_line(&mut self, around: Surroundings) -> (r: bool)
        requires
            old(self)@.can_delete_part(
                old(self)@.cursor() as int,
                old(self)@.line_deletion_end(),
            ),
        ensures
            final(self)@ == old(self)@.deleted(
                old(self)@.cursor() as int,
                old(self)@.line_deletion_end(),
                around,
            ),
            r == old(self)@.takes_deletion(
                old(self)@.cursor() as int,
                old(self)@.line_deletion_end(),
                around,
            ),
    {
        let (_, size) = self.read();
        let end: usize = self.end_of_line();
        let cursor: usize = self.cursor();
        let to: usize = if end == cursor && end < size {
            end + 1
        } else {
            end
        };
        self.delete_part(cursor, to, around)
    }

    pub fn delete_previous_word(&mut self, around: Surroundings) -> (r: bool)
        requires
            old(self)@.can_delete_part(old(self)@.previous_word(), old(self)@.cursor() as int),
        ensures
            final(self)@ == old(self)@.deleted(
                old(self)@.previous_word(),
                old(self)@.cursor() as int,
                around,
            ),
            r == old(self)@.takes_deletion(
                old(self)@.previous_word(),
                old(self)@.cursor() as int,
                around,
            ),
    {
        let from: usize = self.previous_start_of_word();
        self.delete_part(from, self.cursor(), around)
    }

    pub fn delete_next_word(&mut self, around: Surroundings) -> (r: bool)
        requires
            old(self)@.can_delete_part(old(self)@.cursor() as int, old(self)@.next_word()),
        ensures
            final(self)@ == old(self)@.deleted(
                old(self)@.cursor() as int,
                old(self)@.next_word(),
                around,
            ),
            r == old(self)@.takes_deletion(
                old(self)@.cursor() as int,
                old(self)@.next_word(),
                around,
            ),
    {
        let to: usize = self.next_end_of_word();
        self.delete_part(self.cursor(), to, around)
    }

    /// Enter was pressed: a field of several lines takes a line break, and whoever
    /// follows along is told either way. Says whether the key is passed on, which it
    /// is from a single line.
    pub fn enter(&mut self, around: Surroundings) -> (r: bool)
        requires
            old(self)@.mode is SingleLine || old(self)@.can_replace(None),
        ensures
            r == (old(self)@.mode is SingleLine),
            final(self)@ == (if old(self)@.mode is SingleLine {
                old(self)@
            } else {
                old(self)@.replaced(None, seq!['\n'], around)
            }),
    {
        if self.mode.is_multi_line() {
            let mut line_break = String::new();
            line_break.push('\n');
            assert(line_break@ =~= seq!['\n']);
            let _ = self.replace_text_in_range(None, &line_break, around);
            false
        } else {
            true
        }
    }

    fn overwrite(&mut self, value: &str, around: Surroundings)
        requires
            old(self)@.mode.in_order(),
        ensures
            final(self)@ == old(self)@.overwritten(value@, around),
    {
        let (_, size) = self.read();
        proof {
            let text = self@.text;
            assert(text.take(0) =~= Seq::<char>::empty());
            assert(text.take(text.len() as int) =~= text);
            crate::position::lemma_floor_of_offset(text, 0);
            crate::position::lemma_floor_of_offset(text, text.len() as int);
        }
        let _ = self.edit(0, size, value, around);
    }

    pub fn clean(&mut self, around: Surroundings)
        requires
            old(self)@.mode.in_order(),
        ensures
            final(self)@ == old(self)@.cleaned(around),
    {
        let empty = String::new();
        assert(empty@ =~= Seq::<char>::empty());
        self.overwrite(&empty, around);
        self.selected = Selection { start: 0, end: 0 };
    }

    /// Set the text of the input field.
    ///
    /// And the selection will be reset to the start.
    #[verifier::rlimit(40)]
    pub fn set_value(&mut self, value: &str, around: Surroundings)
        requires
            old(self)@.mode.in_order(),
        ensures
            final(self)@ == old(self)@.with_value(value@, around),
    {
        self.history.set_ignore(true);
        let was_disabled = self.disabled;
        self.disabled = false;
        let ghost open = self@;
        assert(open == old(self)@.unlocked());
        self.overwrite(value, around);
        let ghost after = self@;
        assert(after == open.overwritten(value@, around));
        self.disabled = was_disabled;
        self.history.set_ignore(false);
        assert(self@ == (InputView {
            history: crate::history::HistoryView { ignore: false, ..after.history },
            disabled: old(self)@.disabled,
            ..after
        }));
        self.selected = Selection { start: 0, end: 0 };
        assert(self@ =~= old(self)@.with_value(value@, around));
    }

    /// Insert text at the current cursor position.
    ///
    /// And the cursor will be moved to the end of inserted text.
    pub fn insert(&mut self, text: &str, around: Surroundings)
        requires
            old(self)@.mode.in_order(),
        ensures
            final(self)@ == old(self)@.cut_out(
                old(self)@.cursor() as int,
                old(self)@.cursor() as int,
                text@,
                around,
            ).collapsed(),
    {
        let cursor: usize = self.cursor();
        let _ = self.edit_bytes(cursor, cursor, text, around);
        self.selected = Selection { start: self.selected.end, end: self.selected.end };
    }

    /// Replace text at the current cursor position.
    ///
    /// And the cursor will be moved to the end of replaced text.
    pub fn replace(&mut self, text: &str, around: Surroundings)
        requires
            old(self)@.can_replace(None),
        ensures
            final(self)@ == old(self)@.replaced(None, text@, around).collapsed(),
    {
        let _ = self.replace_text_in_range(None, text, around);
        self.selected = Selection { start: self.selected.end, end: self.selected.end };
    }

    /// Escape was pressed: what an input method has put in is no longer marked, and a
    /// field that is to be emptied is. Says whether the key is passed on.
    pub fn escape(&mut self, around: Surroundings) -> (r: bool)
        requires
            old(self)@.mode.in_order(),
        ensures
            r == !old(self)@.clean_on_escape,
            final(self)@ == ({
                let unmarked = InputView { marked: None, ..old(self)@ };
                if old(self)@.clean_on_escape {
                    unmarked.cleaned(around)
                } else {
                    unmarked
                }
            }),
    {
        self.marked = None;
        if self.clean_on_escape {
            self.clean(around);
            return false;
        }
        true
    }

    /// The part of the text between two byte offsets, each moved to a boundary.
    fn text_between(&self, from: usize, to: usize) -> (r: String)
        requires
            from <= to,
        ensures
            r@ == self@.text.subrange(
                crate::position::floor(self@.text, from as int),
                crate::position::floor(self@.text, to as int),
            ),
    {
        let (chars, _) = self.read();
        let (a, _) = count_chars(&chars, from);
        let (b, _) = count_chars(&chars, to);
        proof {
            crate::position::lemma_floor(self@.text, from as int);
            crate::position::lemma_floor(self@.text, to as int);
            if b < a {
                crate::utf8::lemma_offset_increases(self@.text, b + 1, a as int);
            }
        }
        string_between(&chars, a, b)
    }

    /// What is selected.
    pub fn selected_text(&self) -> (r: String)
        requires
            self@.selected.start <= self@.selected.end,
        ensures
            r@ == self@.text.subrange(
                crate::position::floor(self@.text, self@.selected.start as int),
                crate::position::floor(self@.text, self@.selected.end as int),
            ),
    {
        self.text_between(self.selected.start, self.selected.end)
    }

    /// What is copied: what is selected, if anything is.
    pub fn copy(&self) -> (r: Option<String>)
        requires
            self@.selected.start <= self@.selected.end,
        ensures
            crate::text::opt_view(r) == (if self@.selected.start == self@.selected.end {
                None
            } else {
                Some(
                    self@.text.subrange(
                        crate::position::floor(self@.text, self@.selected.start as int),
                        crate::position::floor(self@.text, self@.selected.end as int),
                    ),
                )
            }),
    {
        if self.selected.start == self.selected.end {
            None
        } else {
            Some(self.selected_text())
        }
    }

    /// What is cut: what is selected is copied and deleted, if anything is.
    pub fn cut(&mut self, around: Surroundings) -> (r: Option<String>)
        requires
            old(self)@.selected.start <= old(self)@.selected.end,
            old(self)@.can_replace(None),
        ensures
            crate::text::opt_view(r) == (if old(self)@.selected.start == old(self)@.selected.end {
                None
            } else {
                Some(
                    old(self)@.text.subrange(
                        crate::position::floor(
                            old(self)@.text,
                            old(self)@.selected.start as int,
                        ),
                        crate::position::floor(old(self)@.text, old(self)@.selected.end as int),
                    ),
                )
            }),
            final(self)@ == (if old(self)@.selected.start == old(self)@.selected.end {
                old(self)@
            } else {
                old(self)@.replaced(None, Seq::empty(), around)
            }),
    {
        let text = self.copy();
        if text.is_some() {
            let empty = String::new();
            assert(empty@ =~= Seq::<char>::empty());
            let _ = self.replace_text_in_range(None, &empty, around);
        }
        text
    }

    /// A text is pasted. A single line takes it without its line breaks.
    pub fn paste(&mut self, text: &str, around: Surroundings) -> (r: bool)
        requires
            old(self)@.can_replace(None),
        ensures
            final(self)@ == old(self)@.replaced(
                None,
                if old(self)@.mode is SingleLine {
                    on_one_line(text@)
                } else {
                    text@
                },
                around,
            ),
            r == old(self)@.takes_replacement(
                None,
                if old(self)@.mode is SingleLine {
                    on_one_line(text@)
                } else {
                    text@
                },
                around,
            ),
    {
        if self.mode.is_multi_line() {
            self.replace_text_in_range(None, text, around)
        } else {
            let flat = join_lines(text);
            self.replace_text_in_range(None, &flat, around)
        }
    }

    /// What an input method has put in is no longer marked.
    pub fn unmark_text(&mut self)
        ensures
            final(self)@ == (InputView { marked: None, ..old(self)@ }),
    {
        self.marked = None;
    }

    /// A range of bytes as a range of UTF-16.
    pub fn range_to_utf16(&self, range: (usize, usize)) -> (r: (usize, usize))
        ensures
            r.0 == crate::position::to_utf16(self@.text, range.0 as int),
            r.1 == crate::position::to_utf16(self@.text, range.1 as int),
    {
        let (chars, _) = self.read();
        (offset_to_utf16(&chars, range.0), offset_to_utf16(&chars, range.1))
    }

    /// A range of UTF-16 as a range of bytes.
    pub fn range_from_utf16(&self, range: (usize, usize)) -> (r: (usize, usize))
        ensures
            r.0 == crate::position::from_utf16(self@.text, range.0 as int),
            r.1 == crate::position::from_utf16(self@.text, range.1 as int),
    {
        let (chars, _) = self.read();
        (offset_from_utf16(&chars, range.0), offset_from_utf16(&chars, range.1))
    }

    /// The text in a range of UTF-16, and the range that it really is.
    pub fn text_for_range(&self, range: (usize, usize)) -> (r: (String, (usize, usize)))
        requires
            range.0 <= range.1,
        ensures
            ({
                let from = crate::position::from_utf16(self@.text, range.0 as int);
                let to = crate::position::from_utf16(self@.text, range.1 as int);
                &&& r.0@ == self@.text.subrange(
                    crate::position::floor(self@.text, from),
                    crate::position::floor(self@.text, to),
                )
                &&& r.1.0 == crate::position::to_utf16(self@.text, from)
                &&& r.1.1 == crate::position::to_utf16(self@.text, to)
            }),
    {
        let (chars, _) = self.read();
        proof {
            crate::position::lemma_from_utf16_keeps_order(
                self@.text,
                range.0 as int,
                range.1 as int,
            );
        }
        let from: usize = offset_from_utf16(&chars, range.0);
        let to: usize = offset_from_utf16(&chars, range.1);
        let text = self.text_between(from, to);
        (text, (offset_to_utf16(&chars, from), offset_to_utf16(&chars, to)))
    }

    /// What is selected, in UTF-16.
    pub fn selected_text_range(&self) -> (r: (usize, usize))
        ensures
            r.0 == crate::position::to_utf16(self@.text, self@.selected.start as int),
            r.1 == crate::position::to_utf16(self@.text, self@.selected.end as int),
    {
        self.range_to_utf16((self.selected.start, self.selected.end))
    }

    /// What an input method has marked, in UTF-16.
    pub fn marked_text_range(&self) -> (r: Option<(usize, usize)>)
        ensures
            match (self@.marked, r) {
                (Some(marked), Some((start, end))) => start == crate::position::to_utf16(
                    self@.text,
                    marked.start as int,
                ) && end == crate::position::to_utf16(self@.text, marked.end as int),
                (None, None) => true,
                _ => false,
            },
    {
        let (chars, _) = self.read();
        match self.marked {
            Some(marked) => Some(
                (offset_to_utf16(&chars, marked.start), offset_to_utf16(&chars, marked.end)),
            ),
            None => None,
        }
    }
}

impl InputView {
    /// One change is undone. A change whose ends are the wrong way round is passed
    /// over.
    pub open spec fn change_undone(
        self,
        change: crate::history::ChangeView,
        around: Surroundings,
    ) -> InputView {
        if change.start <= change.new_end {
            self.cut_out(change.start, change.new_end, change.old_text, around)
        } else {
            self
        }
    }

    /// The first `n` of some changes are undone, in order, each with its own verdict.
    pub open spec fn changes_undone(
        self,
        changes: Seq<crate::history::ChangeView>,
        n: int,
        verdicts: Seq<bool>,
        around: Surroundings,
    ) -> InputView
        decreases n,
    {
        if n <= 0 {
            self
        } else {
            self.changes_undone(changes, n - 1, verdicts, around).change_undone(
                changes[n - 1],
                around.judged(verdicts, n - 1),
            )
        }
    }

    /// One change is done again.
    pub open spec fn change_redone(
        self,
        change: crate::history::ChangeView,
        around: Surroundings,
    ) -> InputView {
        if change.start <= change.old_end {
            self.cut_out(change.start, change.old_end, change.new_text, around)
        } else {
            self
        }
    }

    /// The first `n` of some changes are done again, in order, each with its own verdict.
    pub open spec fn changes_redone(
        self,
        changes: Seq<crate::history::ChangeView>,
        n: int,
        verdicts: Seq<bool>,
        around: Surroundings,
    ) -> InputView
        decreases n,
    {
        if n <= 0 {
            self
        } else {
            self.changes_redone(changes, n - 1, verdicts, around).change_redone(
                changes[n - 1],
                around.judged(verdicts, n - 1),
            )
        }
    }

    /// The field with its history neither ignored nor followed.
    pub open spec fn with_ignore(self, ignore: bool) -> InputView {
        InputView { history: crate::history::HistoryView { ignore, ..self.history }, ..self }
    }

    /// The field while the last changes that belong together are being undone, with the
    /// first `n` of them behind it.
    pub open spec fn undoing(self, n: int, verdicts: Seq<bool>, around: Surroundings) -> InputView {
        InputView { history: self.history.undone(), ..self }.with_ignore(true).changes_undone(
            self.history.to_undo(),
            n,
            verdicts,
            around,
        )
    }

    /// The last changes that belong together are undone, one after the other. Each is
    /// refused or taken by a verdict of its own.
    pub open spec fn undone(self, verdicts: Seq<bool>, around: Surroundings) -> InputView {
        self.undoing(self.history.to_undo().len() as int, verdicts, around).with_ignore(false)
    }

    /// The field while the last changes that were undone together are being done again,
    /// with the first `n` of them behind it.
    pub open spec fn redoing(self, n: int, verdicts: Seq<bool>, around: Surroundings) -> InputView {
        InputView { history: self.history.redone(), ..self }.with_ignore(true).changes_redone(
            self.history.to_redo(),
            n,
            verdicts,
            around,
        )
    }

    /// The last changes that were undone together are done again, one after the other.
    /// Each is refused or taken by a verdict of its own.
    pub open spec fn redone(self, verdicts: Seq<bool>, around: Surroundings) -> InputView {
        self.redoing(self.history.to_redo().len() as int, verdicts, around).with_ignore(false)
    }

    /// The text that replacing the part between two byte offsets leads to, each moved to a
    /// boundary. Where they are the wrong way round, nothing is replaced.
    pub open spec fn pending_between(self, from: int, to: int, new_text: Seq<char>) -> Seq<char> {
        if from <= to {
            self.pending(
                crate::position::clip_left(self.text, from),
                crate::position::clip_left(self.text, to),
                new_text,
            )
        } else {
            self.text
        }
    }

    /// The text that the next change leads to in an undo whose first changes were judged.
    pub open spec fn undo_pending(self, verdicts: Seq<bool>, around: Surroundings) -> Option<
        Seq<char>,
    > {
        let changes = self.history.to_undo();
        let n = verdicts.len() as int;
        if n < changes.len() {
            Some(
                self.undoing(n, verdicts, around).pending_between(
                    changes[n].start,
                    changes[n].new_end,
                    changes[n].old_text,
                ),
            )
        } else {
            None
        }
    }

    /// The text that the next change leads to in a redo whose first changes were judged.
    pub open spec fn redo_pending(self, verdicts: Seq<bool>, around: Surroundings) -> Option<
        Seq<char>,
    > {
        let changes = self.history.to_redo();
        let n = verdicts.len() as int;
        if n < changes.len() {
            Some(
                self.redoing(n, verdicts, around).pending_between(
                    changes[n].start,
                    changes[n].old_end,
                    changes[n].new_text,
                ),
            )
        } else {
            None
        }
    }
}

impl Surroundings {
    /// What the surroundings say of the `i`-th of several edits: as long as there are
    /// verdicts, each edit has its own.
    pub open spec fn judged(self, verdicts: Seq<bool>, i: int) -> Surroundings {
        if 0 <= i < verdicts.len() {
            Surroundings { valid: verdicts[i], ..self }
        } else {
            self
        }
    }

    fn judge(self, verdicts: &Vec<bool>, i: usize) -> (r: Surroundings)
        ensures
            r == self.judged(verdicts@, i as int),
    {
        if i < verdicts.len() {
            Surroundings { valid: verdicts[i], now: self.now, lines: self.lines }
        } else {
            self
        }
    }
}

impl InputState {
    /// The same field once more.
    fn duplicate(&self) -> (r: InputState)
        ensures
            r@ == self@,
    {
        let text = rope_text(&self.text);
        InputState {
            mode: self.mode,
            text: rope_of(&text),
            history: self.history.clone(),
            selected: self.selected,
            word: self.word,
            reversed: self.reversed,
            marked: self.marked,
            selecting: self.selecting,
            disabled: self.disabled,
            masked: self.masked,
            clean_on_escape: self.clean_on_escape,
            soft_wrap: self.soft_wrap,
            loading: self.loading,
            placeholder: self.placeholder.clone(),
        }
    }

    /// The text that replacing a part leads to; see [`InputView::pending_between`].
    fn text_after(&self, from: usize, to: usize, new_text: &str) -> (r: String)
        ensures
            r@ == self@.pending_between(from as int, to as int, new_text@),
    {
        let text = rope_text(&self.text);
        if from > to {
            return text;
        }
        let chars = chars_of(&text);
        proof {
            crate::position::lemma_clip_keeps_order(self@.text, from as int, to as int);
        }
        let a: usize = clip_to_left(&chars, from);
        let b: usize = clip_to_left(&chars, to);
        let mut rope = rope_of(&text);
        rope_replace(&mut rope, a, b, new_text);
        rope_text(&rope)
    }

    /// Takes the last changes that belong together back, up to `most` of them. Gives all of
    /// them back.
    fn undo_some(&mut self, most: usize, verdicts: &Vec<bool>, around: Surroundings) -> (r: Vec<
        Change,
    >)
        requires
            old(self)@.mode.in_order(),
        ensures
            crate::history::change_views(r@) == old(self)@.history.to_undo(),
            final(self)@ == old(self)@.undoing(
                if most < r@.len() {
                    most as int
                } else {
                    r@.len() as int
                },
                verdicts@,
                around,
            ),
    {
        let changes = self.history.undo();
        self.history.set_ignore(true);
        let ghost all = crate::history::change_views(changes@);
        let n: usize = if most < changes.len() {
            most
        } else {
            changes.len()
        };
        assert(self@ == old(self)@.undoing(0, verdicts@, around));
        for i in 0..n
            invariant
                n <= changes@.len(),
                all == crate::history::change_views(changes@),
                all == old(self)@.history.to_undo(),
                self@ == old(self)@.undoing(i as int, verdicts@, around),
                self@.mode.in_order(),
        {
            assert(all[i as int] == changes@[i as int]@);
            if changes[i].start <= changes[i].new_end {
                let _ = self.edit_bytes(
                    changes[i].start,
                    changes[i].new_end,
                    &changes[i].old_text,
                    around.judge(verdicts, i),
                );
            }
        }
        changes
    }

    /// Makes the last changes again that were undone together, up to `most` of them. Gives
    /// all of them back.
    fn redo_some(&mut self, most: usize, verdicts: &Vec<bool>, around: Surroundings) -> (r: Vec<
        Change,
    >)
        requires
            old(self)@.mode.in_order(),
        ensures
            crate::history::change_views(r@) == old(self)@.history.to_redo(),
            final(self)@ == old(self)@.redoing(
                if most < r@.len() {
                    most as int
                } else {
                    r@.len() as int
                },
                verdicts@,
                around,
            ),
    {
        let changes = self.history.redo();
        self.history.set_ignore(true);
        let ghost all = crate::history::change_views(changes@);
        let n: usize = if most < changes.len() {
            most
        } else {
            changes.len()
        };
        assert(self@ == old(self)@.redoing(0, verdicts@, around));
        for i in 0..n
            invariant
                n <= changes@.len(),
                all == crate::history::change_views(changes@),
                all == old(self)@.history.to_redo(),
                self@ == old(self)@.redoing(i as int, verdicts@, around),
                self@.mode.in_order(),
        {
            assert(all[i as int] == changes@[i as int]@);
            if changes[i].start <= changes[i].old_end {
                let _ = self.edit_bytes(
                    changes[i].start,
                    changes[i].old_end,
                    &changes[i].new_text,
                    around.judge(verdicts, i),
                );
            }
        }
        changes
    }

    /// The text that the next change of an undo would lead to, after as many as there are
    /// verdicts, to be told whether it is valid. Nothing once every change was judged.
    pub fn undo_to_validate(&self, verdicts: &Vec<bool>, around: Surroundings) -> (r: Option<
        String,
    >)
        requires
            self@.mode.in_order(),
        ensures
            crate::text::opt_view(r) == self@.undo_pending(verdicts@, around),
    {
        let n: usize = verdicts.len();
        let mut trial = self.duplicate();
        let changes = trial.undo_some(n, verdicts, around);
        if n < changes.len() {
            let ghost all = crate::history::change_views(changes@);
            assert(all[n as int] == changes@[n as int]@);
            Some(trial.text_after(changes[n].start, changes[n].new_end, &changes[n].old_text))
        } else {
            None
        }
    }

    /// The text that the next change of a redo would lead to, after as many as there are
    /// verdicts, to be told whether it is valid. Nothing once every change was judged.
    pub fn redo_to_validate(&self, verdicts: &Vec<bool>, around: Surroundings) -> (r: Option<
        String,
    >)
        requires
            self@.mode.in_order(),
        ensures
            crate::text::opt_view(r) == self@.redo_pending(verdicts@, around),
    {
        let n: usize = verdicts.len();
        let mut trial = self.duplicate();
        let changes = trial.redo_some(n, verdicts, around);
        if n < changes.len() {
            let ghost all = crate::history::change_views(changes@);
            assert(all[n as int] == changes@[n as int]@);
            Some(trial.text_after(changes[n].start, changes[n].old_end, &changes[n].new_text))
        } else {
            None
        }
    }

    /// Undoes the last changes that belong together; see [`InputView::undone`]. What a
    /// single line would hold after each of them is judged on its own, as
    /// [`Self::undo_to_validate`] asks; changes without a verdict go by the surroundings.
    pub fn undo(&mut self, verdicts: &Vec<bool>, around: Surroundings)
        requires
            old(self)@.mode.in_order(),
        ensures
            final(self)@ == old(self)@.undone(verdicts@, around),
    {
        let _ = self.undo_some(usize::MAX, verdicts, around);
        self.history.set_ignore(false);
    }

    /// Does the last changes again that were undone together; see
    /// [`InputView::redone`]. The verdicts are those of [`Self::redo_to_validate`].
    pub fn redo(&mut self, verdicts: &Vec<bool>, around: Surroundings)
        requires
            old(self)@.mode.in_order(),
        ensures
            final(self)@ == old(self)@.redone(verdicts@, around),
    {
        let _ = self.redo_some(usize::MAX, verdicts, around);
        self.history.set_ignore(false);
    }
}

/// Whether every edit of several is a valid one.
pub open spec fn all_valid(verdicts: Seq<bool>, around: Surroundings) -> bool {
    &&& around.valid
    &&& forall|i: int| 0 <= i < verdicts.len() ==> #[trigger] verdicts[i]
}

/// Undoing one change that was made unmakes it.
proof fn lemma_change_undone(view: InputView, change: crate::history::ChangeView, around: Surroundings)
    requires
        crate::history::made(view.text, change),
        !view.disabled,
        around.valid,
        view.history.ignore,
    ensures
        view.change_undone(change, around).text == crate::history::unmade(view.text, change),
        view.change_undone(change, around).disabled == view.disabled,
        view.change_undone(change, around).history.ignore,
        view.change_undone(change, around).history.undos == view.history.undos,
{
    crate::rope::lemma_part(view.text, change.start, change.new_end);
}

proof fn lemma_changes_undone(
    view: InputView,
    undos: Seq<crate::history::ChangeView>,
    changes: Seq<crate::history::ChangeView>,
    n: int,
    verdicts: Seq<bool>,
    around: Surroundings,
)
    requires
        0 <= n <= changes.len() <= undos.len(),
        forall|i: int| 0 <= i < changes.len() ==> #[trigger] changes[i] == undos[undos.len() - 1 - i],
        crate::history::all_made(view.text, undos),
        !view.disabled,
        all_valid(verdicts, around),
        view.history.ignore,
    ensures
        ({
            let after = view.changes_undone(changes, n, verdicts, around);
            &&& crate::history::all_made(after.text, undos.take(undos.len() - n))
            &&& crate::history::all_unmade(view.text, undos) == crate::history::all_unmade(
                after.text,
                undos.take(undos.len() - n),
            )
            &&& !after.disabled
            &&& after.history.ignore
            &&& after.history.undos == view.history.undos
        }),
    decreases n,
{
    if n <= 0 {
        assert(undos.take(undos.len() as int) =~= undos);
    } else {
        lemma_changes_undone(view, undos, changes, n - 1, verdicts, around);
        let before = view.changes_undone(changes, n - 1, verdicts, around);
        let left = undos.take(undos.len() - (n - 1));
        assert(left.last() == changes[n - 1]);
        assert(left.drop_last() =~= undos.take(undos.len() - n));
        lemma_change_undone(before, changes[n - 1], around.judged(verdicts, n - 1));
    }
}

/// Undoing unmakes the last changes that belong together: as long as the history is
/// a true record of how the text came about, and the field takes edits, the text is
/// what it was before them, and the history stays a true record.
pub proof fn law_undo_unmakes(view: InputView, verdicts: Seq<bool>, around: Surroundings)
    requires
        crate::history::all_made(view.text, view.history.undos),
        !view.disabled,
        all_valid(verdicts, around),
    ensures
        crate::history::all_made(
            view.undone(verdicts, around).text,
            view.undone(verdicts, around).history.undos,
        ),
        crate::history::all_unmade(view.text, view.history.undos) == crate::history::all_unmade(
            view.undone(verdicts, around).text,
            view.undone(verdicts, around).history.undos,
        ),
{
    let undos = view.history.undos;
    let k = crate::history::last_group(undos);
    if undos.len() > 0 {
        crate::history::lemma_group_len(undos, undos.last().version);
    }
    let changes = view.history.to_undo();
    let open = InputView { history: view.history.undone(), ..view }.with_ignore(true);
    assert forall|i: int| 0 <= i < changes.len() implies #[trigger] changes[i] == undos[undos.len()
        - 1 - i] by {}
    lemma_changes_undone(open, undos, changes, changes.len() as int, verdicts, around);
}

/// Undoing an edit that stands alone gives back the text as it was before it.
pub proof fn law_undo_restores(
    view: InputView,
    from: int,
    to: int,
    new_text: Seq<char>,
    verdicts: Seq<bool>,
    around: Surroundings,
)
    requires
        0 <= from,
        crate::rope::is_part(view.text, from, to),
        crate::history::all_made(view.text, view.history.undos),
        view.takes(from, to, new_text, around),
        all_valid(verdicts, around),
        !view.history.ignore,
        view.history.undos.len() > 0 ==> view.history.undos.last().version
            != view.history.next_version(around.now),
    ensures
        view.edited(from, to, new_text, around).undone(verdicts, around).text == view.text,
{
    let after = view.edited(from, to, new_text, around);
    crate::history::law_recorded_changes_can_be_unmade(
        view.text,
        view.history,
        from,
        to,
        new_text,
        around.now,
    );
    let undos = after.history.undos;
    let version = undos.last().version;
    assert(undos.drop_last() =~= view.history.undos);
    assert(crate::history::last_group(undos) == 1) by {
        reveal_with_fuel(crate::history::group_len, 2);
    }
    let changes = after.history.to_undo();
    assert(changes.len() == 1);
    assert(changes[0] == undos.last());
    let open = InputView { history: after.history.undone(), ..after }.with_ignore(true);
    lemma_change_undone(open, changes[0], around.judged(verdicts, 0));
    assert(open.changes_undone(changes, 0, verdicts, around) == open);
    assert(open.changes_undone(changes, 1, verdicts, around) == open.change_undone(
        changes[0],
        around.judged(verdicts, 0),
    ));
}

/// Doing an undone edit again gives back the text that it led to.
pub proof fn law_redo_restores(
    view: InputView,
    from: int,
    to: int,
    new_text: Seq<char>,
    verdicts: Seq<bool>,
    around: Surroundings,
)
    requires
        0 <= from,
        crate::rope::is_part(view.text, from, to),
        crate::history::all_made(view.text, view.history.undos),
        view.takes(from, to, new_text, around),
        all_valid(verdicts, around),
        !view.history.ignore,
        view.history.undos.len() > 0 ==> view.history.undos.last().version
            != view.history.next_version(around.now),
    ensures
        view.edited(from, to, new_text, around).undone(verdicts, around).redone(verdicts, around).text
            == view.edited(from, to, new_text, around).text,
{
    law_undo_restores(view, from, to, new_text, verdicts, around);
    let after = view.edited(from, to, new_text, around);
    let undos = after.history.undos;
    assert(undos.drop_last() =~= view.history.undos);
    assert(crate::history::last_group(undos) == 1) by {
        reveal_with_fuel(crate::history::group_len, 2);
    }
    let changes = after.history.to_undo();
    let change = undos.last();
    assert(changes =~= seq![change]);
    let open = InputView { history: after.history.undone(), ..after }.with_ignore(true);
    assert(open.changes_undone(changes, 0, verdicts, around) == open);
    assert(open.changes_undone(changes, 1, verdicts, around) == open.change_undone(
        changes[0],
        around.judged(verdicts, 0),
    ));
    let back = after.undone(verdicts, around);
    assert(back.history.redos =~= seq![change]);
    assert(crate::history::last_group(back.history.redos) == 1) by {
        reveal_with_fuel(crate::history::group_len, 2);
    }
    let again = back.history.to_redo();
    assert(again =~= seq![change]);
    let ready = InputView { history: back.history.redone(), ..back }.with_ignore(true);
    assert(ready.changes_redone(again, 0, verdicts, around) == ready);
    assert(ready.changes_redone(again, 1, verdicts, around) == ready.change_redone(
        again[0],
        around.judged(verdicts, 0),
    ));
    crate::rope::lemma_part(view.text, from, to);
}

impl InputView {
    /// Whether text can be put in for now: there is a part to replace, and what is to
    /// be selected of it fits.
    pub open spec fn can_mark(
        self,
        range: Option<(usize, usize)>,
        new_text: Seq<char>,
        selection: Option<(usize, usize)>,
    ) -> bool {
        let (from, to) = self.target(range);
        let pending = self.pending(from, to, new_text);
        &&& self.can_replace(range)
        &&& selection matches Some((start, end)) ==> {
            &&& crate::position::from_utf16(pending, start as int) + from <= usize::MAX
            &&& crate::position::from_utf16(pending, end as int) + to <= usize::MAX
        }
    }

    /// An input method puts text in for now. Taking it back cancels the selection.
    pub open spec fn marked_in(
        self,
        range: Option<(usize, usize)>,
        new_text: Seq<char>,
        selection: Option<(usize, usize)>,
        around: Surroundings,
    ) -> InputView {
        let (from, to) = self.target(range);
        let pending = self.pending(from, to, new_text);
        let end = from + crate::utf8::bytes(new_text);
        if !self.takes(from, to, new_text, around) {
            self
        } else {
            InputView {
                text: pending,
                selected: if new_text.len() == 0 {
                    caret(from)
                } else {
                    match selection {
                        Some((first, last)) => Selection {
                            start: (crate::position::from_utf16(pending, first as int)
                                + from) as usize,
                            end: (crate::position::from_utf16(pending, last as int)
                                + to) as usize,
                        },
                        None => caret(end),
                    }
                },
                marked: if new_text.len() == 0 {
                    None
                } else {
                    Some(Selection { start: from as usize, end: end as usize })
                },
                mode: self.mode.with_rows(around.lines),
                history: self.recorded(
                    crate::history::HistoryView { grouping: true, ..self.history },
                    from,
                    to,
                    new_text,
                    around.now,
                ),
                ..self
            }
        }
    }

    /// The word around an offset: where it starts and ends, by characters.
    pub open spec fn word_around(self, k: int) -> (int, int) {
        (word_start(self.text, k), word_end(self.text, k))
    }

    /// The word at an offset is selected, if there is one.
    pub open spec fn word_selected(self, offset: int) -> InputView {
        let k = crate::position::floor(self.text, offset);
        let (a, b) = self.word_around(k);
        if a == b {
            self
        } else {
            let word = Selection {
                start: crate::utf8::offset(self.text, a) as usize,
                end: crate::utf8::offset(self.text, b) as usize,
            };
            InputView { selected: word, word: Some(word), ..self }
        }
    }
}

/// Where the word before the `k`-th character starts.
pub open spec fn word_start(text: Seq<char>, k: int) -> int
    decreases k,
{
    if k <= 0 || !in_word(text[k - 1]) {
        k
    } else {
        word_start(text, k - 1)
    }
}

/// Where the word after the `k`-th character ends.
pub open spec fn word_end(text: Seq<char>, k: int) -> int
    decreases text.len() - k,
{
    if k >= text.len() || !in_word(text[k]) {
        k
    } else {
        word_end(text, k + 1)
    }
}

/// The white space that a line starts with, from the `k`-th character on.
pub open spec fn indent(text: Seq<char>, k: int) -> Seq<char>
    decreases text.len() - k,
{
    if k >= text.len() || !crate::text::white_space(text[k]) || text[k] == '\n' || text[k]
        == '\r' {
        Seq::empty()
    } else {
        seq![text[k]] + indent(text, k + 1)
    }
}

fn read_indent(chars: &Vec<char>, from: usize) -> (r: String)
    requires
        from <= chars@.len(),
    ensures
        r@ == indent(chars@, from as int),
{
    let mut out = String::new();
    let mut k: usize = from;
    assert(out@ + indent(chars@, from as int) =~= indent(chars@, from as int));
    while k < chars.len() && is_white_space(chars[k]) && chars[k] != '\n' && chars[k] != '\r'
        invariant
            from <= k <= chars@.len(),
            out@ + indent(chars@, k as int) == indent(chars@, from as int),
        decreases chars@.len() - k,
    {
        let ghost was = out@;
        out.push(chars[k]);
        assert(out@ + indent(chars@, k + 1) =~= was + (seq![chars@[k as int]] + indent(
            chars@,
            k + 1,
        )));
        k = k + 1;
    }
    assert(out@ + Seq::<char>::empty() =~= out@);
    out
}

impl InputState {
    /// Mark text is the IME temporary insert on typing.
    pub fn replace_and_mark_text_in_range(
        &mut self,
        range: Option<(usize, usize)>,
        new_text: &str,
        selection: Option<(usize, usize)>,
        around: Surroundings,
    ) -> (r: bool)
        requires
            old(self)@.can_mark(range, new_text@, selection),
        ensures
            final(self)@ == old(self)@.marked_in(range, new_text@, selection, around),
            r == old(self)@.takes_replacement(range, new_text@, around),
    {
        if self.disabled {
            return false;
        }
        let (from, to) = self.find_target(range);
        let ghost before = self@.text;
        proof {
            crate::rope::lemma_part(before, from as int, to as int);
        }
        let (chars, _) = self.read();
        let text = rope_text(&self.text);
        let mut rope = rope_of(&text);
        rope_replace(&mut rope, from, to, new_text);
        let pending = rope_text(&rope);
        if self.mode.is_single_line() && !pending.as_str().is_empty() && !around.valid {
            return false;
        }
        let total: usize = byte_len(&pending);
        proof {
            crate::rope::law_replacing_back_restores(before, from as int, to as int, new_text@);
            crate::rope::lemma_part(pending@, from as int, from + crate::utf8::bytes(new_text@));
        }
        let end: usize = from + byte_len(new_text);
        let new_chars = chars_of(&pending);
        if new_text.is_empty() {
            self.selected = Selection { start: from, end: from };
            self.marked = None;
        } else {
            self.marked = Some(Selection { start: from, end });
            self.selected = match selection {
                Some((first, last)) => Selection {
                    start: offset_from_utf16(&new_chars, first) + from,
                    end: offset_from_utf16(&new_chars, last) + to,
                },
                None => Selection { start: end, end },
            };
        }
        self.mode.update_auto_grow(around.lines);
        self.history.start_grouping();
        let (a, _) = count_chars(&chars, from);
        let (b, _) = count_chars(&chars, to);
        let old_text = string_between(&chars, a, b);
        if !self.history.is_ignoring() {
            self.history.push(
                Change {
                    start: from,
                    old_end: to,
                    old_text,
                    new_end: end,
                    new_text: new_text.to_owned(),
                    version: 0,
                },
                around.now,
            );
        }
        self.text = rope;
        assert(self@ =~= old(self)@.marked_in(range, new_text@, selection, around));
        true
    }

    /// Select the word at the given offset.
    ///
    /// The offset is the UTF-8 offset.
    pub fn select_word(&mut self, offset: usize)
        ensures
            final(self)@ == old(self)@.word_selected(offset as int),
    {
        let (chars, _) = self.read();
        let (k, _) = count_chars(&chars, offset);
        let mut start: usize = k;
        while start > 0 && (is_alphanumeric(chars[start - 1]) || chars[start - 1] == '_')
            invariant
                start <= k <= chars@.len(),
                word_start(chars@, k as int) == word_start(chars@, start as int),
            decreases start,
        {
            start = start - 1;
        }
        let mut end: usize = k;
        while end < chars.len() && (is_alphanumeric(chars[end]) || chars[end] == '_')
            invariant
                k <= end <= chars@.len(),
                word_end(chars@, k as int) == word_end(chars@, end as int),
            decreases chars@.len() - end,
        {
            end = end + 1;
        }
        if start == end {
            return;
        }
        let word = Selection { start: offset_of(&chars, start), end: offset_of(&chars, end) };
        self.selected = word;
        self.word = Some(word);
    }

    /// The mouse goes down at an offset. A double click selects a word, shift extends
    /// the selection, and else the cursor goes there.
    pub fn on_mouse_down(&mut self, offset: usize, double_click: bool, shift: bool)
        ensures
            final(self)@ == ({
                let begun = InputView {
                    marked: match old(self)@.marked {
                        Some(marked) => if marked.start == marked.end {
                            None
                        } else {
                            Some(marked)
                        },
                        None => None,
                    },
                    selecting: true,
                    ..old(self)@
                };
                if double_click {
                    begun.word_selected(offset as int)
                } else if shift {
                    begun.selected_to(offset as int)
                } else {
                    begun.moved_to(offset as int)
                }
            }),
    {
        if let Some(marked) = self.marked {
            if marked.start == marked.end {
                self.marked = None;
            }
        }
        self.selecting = true;
        if double_click {
            self.select_word(offset);
        } else if shift {
            self.select_to(offset);
        } else {
            self.move_to(offset);
        }
    }

    pub fn on_mouse_up(&mut self)
        ensures
            final(self)@ == (InputView { selecting: false, word: None, ..old(self)@ }),
    {
        self.selecting = false;
        self.word = None;
    }

    /// The mouse is dragged to an offset. That selects while the mouse is down, in a
    /// field that is shown, has the focus and is not empty.
    pub fn on_drag_move(&mut self, offset: usize, shown: bool, focused: bool)
        ensures
            final(self)@ == (if old(self)@.text.len() > 0 && shown && focused
                && old(self)@.selecting {
                old(self)@.selected_to(offset as int)
            } else {
                old(self)@
            }),
    {
        let (chars, _) = self.read();
        if chars.len() == 0 || !shown || !focused || !self.selecting {
            return;
        }
        self.select_to(offset);
    }

    /// The offset that an index into the text as it is drawn stands for; see
    /// [`InputView::drawn_at`].
    pub fn offset_for_index(&self, index: usize) -> (r: usize)
        ensures
            r == self@.drawn_at(index as int),
    {
        let (chars, size) = self.read();
        if self.masked {
            let count: usize = chars.len();
            let k: usize = index / 3;
            offset_of(
                &chars,
                if k <= count {
                    k
                } else {
                    count
                },
            )
        } else if index > size {
            size
        } else {
            index
        }
    }

    /// The offset that the pointer is at. `shown` says what the pointer is to the
    /// visible lines, and how many bytes are above them; `None` before anything was
    /// laid out.
    pub fn index_for_mouse_position(&self, shown: Option<(usize, &Vec<LineHit>)>) -> (r: usize)
        requires
            shown matches Some((start, hits)) ==> start + crate::layout::extent(hits@, 0)
                <= usize::MAX,
        ensures
            r == (match shown {
                Some((start, hits)) => if self@.text.len() == 0 {
                    0
                } else {
                    self@.drawn_at(
                        if self@.mode is SingleLine {
                            crate::layout::index_in_line(hits@, 0, start as int)
                        } else {
                            crate::layout::index_of(hits@, 0, start as int)
                        },
                    )
                },
                None => 0,
            }),
    {
        let (chars, _) = self.read();
        if chars.len() == 0 {
            return 0;
        }
        match shown {
            Some((start, hits)) => {
                let index: usize = find_index(hits, start, self.mode.is_single_line());
                self.offset_for_index(index)
            },
            None => 0,
        }
    }

    /// Get start line of selection start or end (The min value).
    ///
    /// This is means is always get the first line of selection.
    pub fn start_of_line_of_selection(&self) -> (r: usize)
        ensures
            r == (if self@.mode is SingleLine {
                0
            } else {
                let low = if self@.selected.start <= self@.selected.end {
                    self@.selected.start as int
                } else {
                    self@.selected.end as int
                };
                crate::utf8::offset(
                    self@.text,
                    crate::position::line_start(
                        self@.text,
                        crate::position::floor(self@.text, low),
                    ),
                )
            }),
    {
        if self.mode.is_single_line() {
            return 0;
        }
        let (chars, _) = self.read();
        let low: usize = if self.selected.start <= self.selected.end {
            self.selected.start
        } else {
            self.selected.end
        };
        let (k, _) = count_chars(&chars, low);
        offset_of(&chars, find_line_start(&chars, k))
    }

    /// Get indent string of next line.
    ///
    /// To get current and next line indent, to return more depth one.
    pub fn indent_of_next_line(&self) -> (r: String)
        ensures
            r@ == (if self@.mode is SingleLine {
                Seq::empty()
            } else {
                let k = crate::position::floor(self@.text, self@.cursor() as int);
                let current = indent(self@.text, crate::position::line_start(self@.text, k));
                let next = indent(self@.text, crate::position::line_end(self@.text, k) + 1);
                if crate::utf8::bytes(next) > crate::utf8::bytes(current) {
                    next
                } else {
                    current
                }
            }),
    {
        if self.mode.is_single_line() {
            let empty = String::new();
            assert(empty@ =~= Seq::<char>::empty());
            return empty;
        }
        let (chars, _) = self.read();
        let (k, _) = count_chars(&chars, self.cursor());
        let start: usize = find_line_start(&chars, k);
        let end: usize = find_line_end(&chars, k);
        let current = read_indent(&chars, start);
        let next = if end < chars.len() {
            read_indent(&chars, end + 1)
        } else {
            let empty = String::new();
            assert(empty@ =~= indent(self@.text, end + 1));
            empty
        };
        if byte_len(&next) > byte_len(&current) {
            next
        } else {
            current
        }
    }

    /// Whether the cursor is drawn.
    pub fn show_cursor(focused: bool, visible: bool, window_active: bool) -> (r: bool)
        ensures
            r == (focused && visible && window_active),
    {
        focused && visible && window_active
    }

    /// Set Input to use [`InputMode::MultiLine`] mode.
    ///
    /// Default rows is 2.
    pub fn multi_line(self) -> (r: Self)
        ensures
            r@ == (InputView { mode: InputMode::MultiLine { rows: 2 }, ..self@ }),
    {
        InputState { mode: InputMode::MultiLine { rows: 2 }, ..self }
    }

    /// Set Input to use [`InputMode::AutoGrow`] mode with min, max rows limit.
    pub fn auto_grow(self, min_rows: usize, max_rows: usize) -> (r: Self)
        ensures
            r@ == (InputView {
                mode: InputMode::AutoGrow { rows: min_rows, min_rows, max_rows },
                ..self@
            }),
    {
        InputState { mode: InputMode::AutoGrow { rows: min_rows, min_rows, max_rows }, ..self }
    }

    /// Set the number of rows for the multi-line Textarea.
    pub fn rows(self, rows: usize) -> (r: Self)
        ensures
            r@ == (InputView {
                mode: match self@.mode {
                    InputMode::SingleLine => InputMode::SingleLine,
                    InputMode::MultiLine { .. } => InputMode::MultiLine { rows },
                    InputMode::AutoGrow { min_rows, .. } => InputMode::AutoGrow {
                        rows,
                        min_rows,
                        max_rows: rows,
                    },
                },
                ..self@
            }),
    {
        let mode = match self.mode {
            InputMode::SingleLine => InputMode::SingleLine,
            InputMode::MultiLine { .. } => InputMode::MultiLine { rows },
            InputMode::AutoGrow { min_rows, .. } => InputMode::AutoGrow {
                rows,
                min_rows,
                max_rows: rows,
            },
        };
        InputState { mode, ..self }
    }

    /// Set placeholder
    pub fn placeholder(self, placeholder: String) -> (r: Self)
        ensures
            r@ == (InputView { placeholder: placeholder@, ..self@ }),
    {
        InputState { placeholder, ..self }
    }

    /// Set placeholder
    pub fn set_placeholder(&mut self, placeholder: String)
        ensures
            final(self)@ == (InputView { placeholder: placeholder@, ..old(self)@ }),
    {
        self.placeholder = placeholder;
    }

    /// Set with disabled mode.
    pub fn disabled(self, disabled: bool) -> (r: Self)
        ensures
            r@ == (InputView { disabled, ..self@ }),
    {
        InputState { disabled, ..self }
    }

    /// Set with password masked state.
    ///
    /// Only for [`InputMode::SingleLine`] mode.
    pub fn masked(self, masked: bool) -> (r: Self)
        requires
            self@.mode is SingleLine,
        ensures
            r@ == (InputView { masked, ..self@ }),
    {
        InputState { masked, ..self }
    }

    /// Set the password masked state of the input field.
    ///
    /// Only for [`InputMode::SingleLine`] mode.
    pub fn set_masked(&mut self, masked: bool)
        requires
            old(self)@.mode is SingleLine,
        ensures
            final(self)@ == (InputView { masked, ..old(self)@ }),
    {
        self.masked = masked;
    }

    /// Set true to clear the input by pressing Escape key.
    pub fn clean_on_escape(self) -> (r: Self)
        ensures
            r@ == (InputView { clean_on_escape: true, ..self@ }),
    {
        InputState { clean_on_escape: true, ..self }
    }

    /// Set the soft wrap mode for multi-line input, default is true.
    pub fn soft_wrap(self, wrap: bool) -> (r: Self)
        requires
            !(self@.mode is SingleLine),
        ensures
            r@ == (InputView { soft_wrap: wrap, ..self@ }),
    {
        InputState { soft_wrap: wrap, ..self }
    }

    /// Update the soft wrap mode for multi-line input, default is true. Says whether the
    /// field is to be scrolled back to the left, which a wrapped text is.
    pub fn set_soft_wrap(&mut self, wrap: bool) -> (r: bool)
        requires
            !(old(self)@.mode is SingleLine),
        ensures
            final(self)@ == (InputView { soft_wrap: wrap, ..old(self)@ }),
            r == wrap,
    {
        self.soft_wrap = wrap;
        wrap
    }

    /// Set true to show indicator at the input right.
    ///
    /// Only for [`InputMode::SingleLine`] mode.
    pub fn set_loading(&mut self, loading: bool)
        requires
            old(self)@.mode is SingleLine,
        ensures
            final(self)@ == (InputView { loading, ..old(self)@ }),
    {
        self.loading = loading;
    }

    /// Set the default value of the input field.
    pub fn default_value(self, value: &str) -> (r: Self)
        ensures
            r@ == (InputView { text: value@, ..self@ }),
    {
        InputState { text: rope_of(value), ..self }
    }

    /// What is selected, by bytes.
    pub fn selection(&self) -> (r: Selection)
        ensures
            r == self@.selected,
    {
        self.selected
    }

    /// What an input method has marked, by bytes.
    pub fn marked(&self) -> (r: Option<Selection>)
        ensures
            r == self@.marked,
    {
        self.marked
    }

    /// How the field takes lines.
    pub fn mode(&self) -> (r: InputMode)
        ensures
            r == self@.mode,
    {
        self.mode
    }
}

impl InputView {
    /// Whether a field is in order: what is selected and marked are parts of the text,
    /// no word is held, and there are no carriage returns.
    pub open spec fn sound(self) -> bool {
        &&& self.mode.in_order()
        &&& crate::rope::is_part(self.text, self.selected.start as int, self.selected.end as int)
        &&& self.marked is None
        &&& self.word is None
        &&& self.size() < usize::MAX
        &&& forall|i: int| 0 <= i < self.text.len() ==> #[trigger] self.text[i] != '\r'
    }
}

/// A field that is in order can be edited in every way, whatever it holds.
pub proof fn law_sound_fields_can_be_edited(view: InputView)
    requires
        view.sound(),
    ensures
        view.can_replace(None),
        view.can_backspace(),
        view.can_delete(),
{
    let text = view.text;
    let at = view.cursor() as int;
    crate::rope::lemma_part(text, view.selected.start as int, view.selected.end as int);
    if view.selected.start == view.selected.end {
        let before = if at > 0 {
            at - 1
        } else {
            0
        };
        crate::position::lemma_clip_keeps_order(text, before, at);
        crate::position::lemma_floor(text, before);
        crate::position::lemma_floor(text, crate::position::clip_left(text, before));
        let low = boundary_before(text, at);
        assert(low == crate::position::clip_left(text, before));
        assert(low <= at);
        crate::position::lemma_floor(text, at + 1);
        crate::position::lemma_floor_of_offset(text, crate::position::floor(text, at + 1));
        if crate::position::floor(text, at + 1) < text.len() {
            crate::position::lemma_floor_of_offset(text, crate::position::floor(text, at + 1) + 1);
        }
        crate::position::lemma_floor(text, crate::position::clip_right(text, at + 1));
        let high = boundary_after(text, at);
        assert(high == crate::position::clip_right(text, at + 1));
        crate::position::lemma_clip_keeps_order(text, at, at + 1);
        assert(at <= high);
    }
}

/// Editing leaves a field in order: whatever part is replaced by whatever text
/// without carriage returns that still fits.
pub proof fn law_editing_keeps_fields_sound(
    view: InputView,
    from: int,
    to: int,
    new_text: Seq<char>,
    around: Surroundings,
)
    requires
        view.sound(),
        0 <= from,
        crate::rope::is_part(view.text, from, to),
        forall|i: int| 0 <= i < new_text.len() ==> #[trigger] new_text[i] != '\r',
        crate::utf8::bytes(view.pending(from, to, new_text)) < usize::MAX,
    ensures
        view.edited(from, to, new_text, around).sound(),
{
    crate::rope::lemma_part(view.text, from, to);
    crate::rope::law_replacing_back_restores(view.text, from, to, new_text);
    let pending = view.pending(from, to, new_text);
    crate::rope::lemma_part(pending, from, from + crate::utf8::bytes(new_text));
}

/// Whether a part of the text between two others is selected, and nothing is marked.
pub open spec fn selects(view: InputView, before: Seq<char>, part: Seq<char>, after: Seq<char>) -> bool {
    &&& view.text == before + part + after
    &&& view.selected.start == crate::utf8::bytes(before)
    &&& view.selected.end == crate::utf8::bytes(before) + crate::utf8::bytes(part)
    &&& view.marked is None
}

/// Typing or pasting replaces what is selected, and leaves all else as it is; the cursor goes
/// behind what was put in.
pub proof fn law_typing_replaces_what_is_selected(
    view: InputView,
    before: Seq<char>,
    part: Seq<char>,
    after: Seq<char>,
    new_text: Seq<char>,
    around: Surroundings,
)
    requires
        selects(view, before, part, after),
        !view.disabled,
        around.valid,
        crate::utf8::bytes(before + new_text) <= usize::MAX,
    ensures
        ({
            let then = view.replaced(None, new_text, around);
            &&& view.takes_replacement(None, new_text, around)
            &&& then.text == before + new_text + after
            &&& then.selected.start == crate::utf8::bytes(before + new_text)
            &&& then.selected.end == crate::utf8::bytes(before + new_text)
            &&& then.marked is None
            &&& !view.history.ignore ==> then.history.undos.len() == view.history.undos.len() + 1
            &&& then.masked == view.masked && then.disabled == view.disabled
                && then.placeholder == view.placeholder
        }),
{
    crate::rope::law_replacing_touches_only_the_part(before, part, after, new_text);
    crate::utf8::lemma_bytes_concat(before, new_text);
    crate::utf8::lemma_bytes_at_least(before + new_text);
}

/// A part of the text that is named by its place in UTF-16 is the one that is replaced,
/// whatever is selected.
pub proof fn law_named_parts_are_replaced(
    view: InputView,
    before: Seq<char>,
    part: Seq<char>,
    after: Seq<char>,
    new_text: Seq<char>,
    around: Surroundings,
    range: (usize, usize),
)
    requires
        view.text == before + part + after,
        range.0 == crate::position::utf16_len(before),
        range.1 == crate::position::utf16_len(before + part),
        !view.disabled,
        around.valid,
    ensures
        view.replaced(Some(range), new_text, around).text == before + new_text + after,
{
    let s = view.text;
    assert(s =~= before + (part + after));
    assert(s =~= (before + part) + after);
    crate::position::law_offsets_count_what_stands_before(before, part + after);
    crate::position::law_offsets_count_what_stands_before(before + part, after);
    crate::utf8::lemma_bytes_concat(before, part);
    crate::rope::law_replacing_touches_only_the_part(before, part, after, new_text);
}

/// What an input method has marked is replaced before anything that is selected.
pub proof fn law_marked_text_is_replaced_first(
    view: InputView,
    before: Seq<char>,
    part: Seq<char>,
    after: Seq<char>,
    new_text: Seq<char>,
    around: Surroundings,
)
    requires
        view.text == before + part + after,
        crate::utf8::bytes(before + part) <= usize::MAX,
        view.marked == Some(
            Selection {
                start: crate::utf8::bytes(before) as usize,
                end: crate::utf8::bytes(before + part) as usize,
            },
        ),
        !view.disabled,
        around.valid,
    ensures
        view.replaced(None, new_text, around).text == before + new_text + after,
        view.replaced(None, new_text, around).marked is None,
        view.cursor() == crate::utf8::bytes(before + part),
{
    let s = view.text;
    assert(s =~= before + (part + after));
    assert(s =~= (before + part) + after);
    crate::utf8::lemma_bytes_at_least(before);
    crate::utf8::lemma_bytes_at_least(part);
    crate::utf8::lemma_bytes_concat(before, part);
    crate::position::law_offsets_count_what_stands_before(before, part + after);
    crate::position::law_offsets_count_what_stands_before(before + part, after);
    crate::rope::law_replacing_touches_only_the_part(before, part, after, new_text);
}

/// A field that is disabled takes no edit. One of a single line refuses a text that is not
/// valid, unless nothing is left in it; one of several lines takes every text.
pub proof fn law_edits_are_refused_only_for_a_reason(
    view: InputView,
    from: int,
    to: int,
    new_text: Seq<char>,
    around: Surroundings,
)
    ensures
        view.disabled ==> view.edited(from, to, new_text, around) == view && !view.takes(
            from,
            to,
            new_text,
            around,
        ),
        view.mode is SingleLine && !around.valid && view.pending(from, to, new_text).len() > 0
            ==> view.edited(from, to, new_text, around) == view && !view.takes(
            from,
            to,
            new_text,
            around,
        ),
        !view.disabled && around.valid ==> view.takes(from, to, new_text, around),
        !view.disabled && !(view.mode is SingleLine) ==> view.takes(from, to, new_text, around),
        !view.disabled && view.pending(from, to, new_text).len() == 0 ==> view.takes(
            from,
            to,
            new_text,
            around,
        ),
{
}

/// What is copied or cut is what is selected.
pub proof fn law_selected_text_is_the_part(
    view: InputView,
    before: Seq<char>,
    part: Seq<char>,
    after: Seq<char>,
)
    requires
        selects(view, before, part, after),
    ensures
        view.text.subrange(
            crate::position::floor(view.text, view.selected.start as int),
            crate::position::floor(view.text, view.selected.end as int),
        ) == part,
{
    crate::rope::law_replacing_touches_only_the_part(before, part, after, Seq::empty());
}

/// Whether the cursor stands between two parts of a text, with nothing selected or marked.
pub open spec fn stands(view: InputView, before: Seq<char>, after: Seq<char>) -> bool {
    &&& view.text == before + after
    &&& view.selected.start == crate::utf8::bytes(before)
    &&& view.selected.end == crate::utf8::bytes(before)
    &&& view.marked is None
    &&& view.word is None
}

proof fn lemma_one_byte(c: char)
    ensures
        crate::utf8::bytes(seq![c]) == crate::utf8::width(c),
        1 <= crate::utf8::width(c) <= 4,
{
    reveal_with_fuel(crate::utf8::bytes, 2);
    assert(seq![c].drop_last() =~= Seq::<char>::empty());
}

/// The boundary before a character is where the one before it ends, and the boundary after
/// it is where the next one starts, however many bytes it takes.
pub proof fn law_boundaries_are_one_character_apart(before: Seq<char>, c: char, after: Seq<char>)
    requires
        c != '\r',
        after.len() == 0 || after[0] != '\r',
    ensures
        boundary_before(before + seq![c] + after, crate::utf8::bytes(before + seq![c]))
            == crate::utf8::bytes(before),
        boundary_after(before + seq![c] + after, crate::utf8::bytes(before)) == crate::utf8::bytes(
            before + seq![c],
        ),
{
    let s = before + seq![c] + after;
    let a = crate::utf8::bytes(before);
    let b = crate::utf8::bytes(before + seq![c]);
    lemma_one_byte(c);
    crate::utf8::lemma_bytes_concat(before, seq![c]);
    crate::utf8::lemma_bytes_at_least(before);
    assert(s =~= before + (seq![c] + after));
    crate::position::law_offsets_count_what_stands_before(before, seq![c] + after);
    crate::position::law_offsets_count_what_stands_before(before + seq![c], after);
    if b - 1 > a {
        crate::position::law_offsets_within_characters_are_moved(before, c, after, b - 1);
    }
    if a + 1 < b {
        crate::position::law_offsets_within_characters_are_moved(before, c, after, a + 1);
    }
    assert((seq![c] + after)[0] == c);
}

/// Backspace takes the one character before the cursor, however many bytes it takes, and
/// leaves all others.
pub proof fn law_backspace_takes_one_character(
    view: InputView,
    before: Seq<char>,
    c: char,
    after: Seq<char>,
    around: Surroundings,
)
    requires
        stands(view, before + seq![c], after),
        c != '\r',
        after.len() == 0 || after[0] != '\r',
        !view.disabled,
        around.valid,
    ensures
        view.back_selected().replaced(None, Seq::empty(), around).text == before + after,
        view.back_selected().replaced(None, Seq::empty(), around).selected.end
            == crate::utf8::bytes(before),
{
    law_boundaries_are_one_character_apart(before, c, after);
    lemma_one_byte(c);
    crate::utf8::lemma_bytes_concat(before, seq![c]);
    crate::utf8::lemma_bytes_at_least(before);
    crate::utf8::lemma_bytes_at_least(after);
    crate::utf8::lemma_bytes_concat(before + seq![c], after);
    let chosen = view.back_selected();
    assert(selects(chosen, before, seq![c], after));
    assert(before + Seq::<char>::empty() =~= before);
    law_typing_replaces_what_is_selected(chosen, before, seq![c], after, Seq::empty(), around);
}

/// Delete takes the one character after the cursor and leaves all others.
pub proof fn law_delete_takes_one_character(
    view: InputView,
    before: Seq<char>,
    c: char,
    after: Seq<char>,
    around: Surroundings,
)
    requires
        stands(view, before, seq![c] + after),
        crate::utf8::bytes(view.text) <= usize::MAX,
        c != '\r',
        after.len() == 0 || after[0] != '\r',
        !view.disabled,
        around.valid,
    ensures
        view.ahead_selected().replaced(None, Seq::empty(), around).text == before + after,
        view.ahead_selected().replaced(None, Seq::empty(), around).selected.end
            == crate::utf8::bytes(before),
{
    law_boundaries_are_one_character_apart(before, c, after);
    lemma_one_byte(c);
    assert(before + (seq![c] + after) =~= before + seq![c] + after);
    crate::utf8::lemma_bytes_concat(before, seq![c]);
    crate::utf8::lemma_bytes_at_least(before);
    crate::utf8::lemma_bytes_at_least(after);
    crate::utf8::lemma_bytes_concat(before + seq![c], after);
    let chosen = view.ahead_selected();
    assert(selects(chosen, before, seq![c], after));
    assert(before + Seq::<char>::empty() =~= before);
    law_typing_replaces_what_is_selected(chosen, before, seq![c], after, Seq::empty(), around);
}

/// With something selected, backspace and delete take that and no more.
pub proof fn law_deleting_takes_what_is_selected(view: InputView, around: Surroundings, from: int, to: int)
    requires
        view.selected.start != view.selected.end,
    ensures
        view.back_selected() == view,
        view.ahead_selected() == view,
        view.deleted(from, to, around) == view.replaced(None, Seq::empty(), around),
        view.takes_deletion(from, to, around) == view.takes_replacement(
            None,
            Seq::empty(),
            around,
        ),
{
}

/// A text that is pasted into a single line loses its line breaks and nothing else: all other
/// characters stay, as often as they were there and in their order.
pub proof fn law_pasting_drops_only_line_breaks(a: Seq<char>, b: Seq<char>, c: char)
    ensures
        on_one_line(a + b) == on_one_line(a) + on_one_line(b),
        on_one_line(seq!['\n']) == Seq::<char>::empty(),
        c != '\n' ==> on_one_line(seq![c]) == seq![c],
        !on_one_line(a).contains('\n'),
        !a.contains('\n') ==> on_one_line(a) == a,
        c != '\n' ==> on_one_line(a).to_multiset().count(c) == a.to_multiset().count(c),
    decreases a.len() + b.len(),
{
    reveal(Seq::filter);
    let keep = |x: char| x != '\n';
    assert(seq!['\n'].drop_last() =~= Seq::<char>::empty());
    assert(seq![c].drop_last() =~= Seq::<char>::empty());
    assert(on_one_line(Seq::empty()) =~= Seq::<char>::empty());
    crate::names::lemma_filter_within(a, keep, '\n');
    if b.len() == 0 {
        assert(a + b =~= a);
        assert(on_one_line(a) + on_one_line(b) =~= on_one_line(a));
    } else {
        law_pasting_drops_only_line_breaks(a, b.drop_last(), c);
        assert((a + b).drop_last() =~= a + b.drop_last());
        assert(on_one_line(a + b) =~= on_one_line(a) + on_one_line(b));
    }
    if a.len() > 0 {
        law_pasting_drops_only_line_breaks(a.drop_last(), Seq::empty(), c);
        let last = a.last();
        assert(a =~= a.drop_last().push(last));
        assert(a.to_multiset() == a.drop_last().to_multiset().insert(last)) by {
            broadcast use vstd::seq_lib::group_to_multiset_ensures;

        }
        assert(on_one_line(a).to_multiset() == (if last == '\n' {
            on_one_line(a.drop_last()).to_multiset()
        } else {
            on_one_line(a.drop_last()).to_multiset().insert(last)
        })) by {
            broadcast use vstd::seq_lib::group_to_multiset_ensures;

        }
        assert(a[a.len() - 1] == last);
        if !a.contains('\n') {
            assert forall|i: int| 0 <= i < a.drop_last().len() implies a.drop_last()[i] != '\n' by {
                assert(a.contains(a[i]));
            }
            assert(last != '\n');
            assert(on_one_line(a) =~= a);
        }
    } else {
        assert(on_one_line(a) =~= a);
    }
}

/// The cursor goes where it is moved, or to the end where that is beyond it, and nothing is
/// selected then.
pub proof fn law_moving_goes_where_it_is_told(view: InputView, offset: int)
    requires
        0 <= offset,
        view.size() <= usize::MAX,
    ensures
        ({
            let then = view.moved_to(offset);
            &&& then.selected.start == then.selected.end
            &&& offset <= view.size() ==> then.selected.end == offset
            &&& offset > view.size() ==> then.selected.end == view.size()
            &&& then.text == view.text && then.history == view.history
        }),
{
    crate::utf8::lemma_bytes_at_least(view.text);
}

/// Selecting keeps the end at which it began: what is selected reaches from there to where it
/// goes, in whichever direction, and the cursor is where it went.
pub proof fn law_selecting_keeps_where_it_began(view: InputView, offset: int)
    requires
        0 <= offset <= view.size() <= usize::MAX,
        view.word is None,
        view.marked is None,
        view.selected.start <= view.selected.end,
    ensures
        ({
            let then = view.selected_to(offset);
            let anchor = if view.reversed {
                view.selected.end as int
            } else {
                view.selected.start as int
            };
            &&& offset <= anchor ==> then.selected.start == offset && then.selected.end == anchor
            &&& offset >= anchor ==> then.selected.start == anchor && then.selected.end == offset
            &&& then.cursor() == offset
            &&& then.text == view.text && then.history == view.history
        }),
{
}

/// A word that was selected by a double click stays selected, however far it is dragged.
pub proof fn law_dragging_keeps_the_word(view: InputView, offset: int, word: Selection)
    requires
        view.word == Some(word),
    ensures
        view.selected_to(offset).selected.start <= word.start,
        view.selected_to(offset).selected.end >= word.end,
        view.selected_to(offset).word == Some(word),
{
}

/// A line of a text of several lines reaches from the line break before the cursor to the one
/// after it; a single line is all of the text.
pub proof fn law_lines_are_between_breaks(
    view: InputView,
    before: Seq<char>,
    left: Seq<char>,
    right: Seq<char>,
    after: Seq<char>,
)
    requires
        stands(view, before + left, right + after),
        !left.contains('\n'),
        !right.contains('\n'),
        before.len() == 0 || before.last() == '\n',
        after.len() == 0 || after[0] == '\n',
    ensures
        !(view.mode is SingleLine) ==> view.start_of_line() == crate::utf8::bytes(before)
            && view.end_of_line() == crate::utf8::bytes(before + left + right),
        view.mode is SingleLine ==> view.start_of_line() == 0 && view.end_of_line()
            == crate::utf8::bytes(view.text),
{
    let line = left + right;
    let s = view.text;
    assert(s =~= before + line + after);
    assert forall|i: int| 0 <= i < line.len() implies line[i] != '\n' by {
        if i < left.len() {
            assert(left.contains(left[i]));
        } else {
            assert(right.contains(right[i - left.len()]));
        }
    }
    crate::position::law_offsets_count_what_stands_before(before + left, right + after);
    crate::position::law_lines_reach_from_break_to_break(before, line, after, left.len() as int);
    assert(s.take(before.len() as int) =~= before);
    assert(s.take((before.len() + line.len()) as int) =~= before + left + right);
}

/// Taking a part out of a text leaves the rest as it is.
proof fn lemma_cut_out(
    view: InputView,
    before: Seq<char>,
    part: Seq<char>,
    after: Seq<char>,
    around: Surroundings,
)
    requires
        view.text == before + part + after,
        !view.disabled,
        around.valid,
    ensures
        view.cut_out(
            crate::utf8::bytes(before),
            crate::utf8::bytes(before + part),
            Seq::empty(),
            around,
        ).text == before + after,
{
    let s = view.text;
    assert(s =~= before + (part + after));
    crate::position::law_offsets_count_what_stands_before(before, part + after);
    crate::position::law_offsets_count_what_stands_before(before + part, after);
    crate::utf8::lemma_bytes_concat(before, part);
    crate::rope::law_replacing_touches_only_the_part(before, part, after, Seq::empty());
    assert(before + Seq::<char>::empty() + after =~= before + after);
}

/// Deleting to the start of a line takes what stands before the cursor on it, or the line break
/// where nothing does.
pub proof fn law_lines_are_deleted_to_their_start(
    view: InputView,
    before: Seq<char>,
    left: Seq<char>,
    right: Seq<char>,
    after: Seq<char>,
    around: Surroundings,
)
    requires
        stands(view, before + left, right + after),
        crate::utf8::bytes(view.text) <= usize::MAX,
        !left.contains('\n'),
        !right.contains('\n'),
        before.len() == 0 || before.last() == '\n',
        after.len() == 0 || after[0] == '\n',
        !(view.mode is SingleLine),
        !view.disabled,
        around.valid,
    ensures
        left.len() > 0 ==> view.deleted(
            view.line_deletion_start(),
            view.cursor() as int,
            around,
        ).text == before + right + after,
        left.len() == 0 && before.len() > 0 ==> view.deleted(
            view.line_deletion_start(),
            view.cursor() as int,
            around,
        ).text == before.drop_last() + right + after,
{
    law_lines_are_between_breaks(view, before, left, right, after);
    let rest = right + after;
    crate::utf8::lemma_bytes_at_least(before);
    crate::utf8::lemma_bytes_at_least(left);
    crate::utf8::lemma_bytes_concat(before, left);
    if left.len() > 0 {
        lemma_cut_out(view, before, left, rest, around);
        assert(before + rest =~= before + right + after);
    } else if before.len() > 0 {
        let init = before.drop_last();
        lemma_one_byte('\n');
        assert(before =~= init + seq!['\n']);
        assert(before + left =~= before);
        crate::utf8::lemma_bytes_concat(init, seq!['\n']);
        lemma_cut_out(view, init, seq!['\n'], rest, around);
        assert(init + rest =~= init + right + after);
    }
}

/// Deleting to the end of a line takes what stands after the cursor on it, or the line break
/// where nothing does.
pub proof fn law_lines_are_deleted_to_their_end(
    view: InputView,
    before: Seq<char>,
    left: Seq<char>,
    right: Seq<char>,
    after: Seq<char>,
    around: Surroundings,
)
    requires
        stands(view, before + left, right + after),
        crate::utf8::bytes(view.text) <= usize::MAX,
        !left.contains('\n'),
        !right.contains('\n'),
        before.len() == 0 || before.last() == '\n',
        after.len() == 0 || after[0] == '\n',
        !(view.mode is SingleLine),
        !view.disabled,
        around.valid,
    ensures
        right.len() > 0 ==> view.deleted(
            view.cursor() as int,
            view.line_deletion_end(),
            around,
        ).text == before + left + after,
        right.len() == 0 && after.len() > 0 ==> view.deleted(
            view.cursor() as int,
            view.line_deletion_end(),
            around,
        ).text == before + left + after.skip(1),
{
    law_lines_are_between_breaks(view, before, left, right, after);
    let front = before + left;
    crate::utf8::lemma_bytes_at_least(right);
    crate::utf8::lemma_bytes_at_least(after);
    crate::utf8::lemma_bytes_concat(front, right);
    crate::utf8::lemma_bytes_concat(front + right, after);
    assert(view.text =~= front + right + after);
    if right.len() > 0 {
        lemma_cut_out(view, front, right, after, around);
    } else if after.len() > 0 {
        let tail = after.skip(1);
        lemma_one_byte('\n');
        assert(after =~= seq!['\n'] + tail);
        assert(front + right =~= front);
        crate::utf8::lemma_bytes_concat(front, seq!['\n']);
        assert(view.text =~= front + seq!['\n'] + tail);
        lemma_cut_out(view, front, seq!['\n'], tail, around);
    }
}

/// In a single line, deleting to its start or its end takes all that stands there.
pub proof fn law_a_single_line_is_deleted_from_the_cursor(
    view: InputView,
    before: Seq<char>,
    after: Seq<char>,
    around: Surroundings,
)
    requires
        stands(view, before, after),
        view.mode is SingleLine,
        !view.disabled,
        around.valid,
    ensures
        before.len() > 0 ==> view.deleted(
            view.line_deletion_start(),
            view.cursor() as int,
            around,
        ).text == after,
        after.len() > 0 ==> view.deleted(
            view.cursor() as int,
            view.line_deletion_end(),
            around,
        ).text == before,
{
    let none = Seq::<char>::empty();
    crate::utf8::lemma_bytes_at_least(before);
    crate::utf8::lemma_bytes_at_least(after);
    crate::utf8::lemma_bytes_concat(before, after);
    assert(view.text =~= none + before + after);
    assert(none + before =~= before);
    assert(none + after =~= after);
    assert(view.text =~= before + after + none);
    assert(before + none =~= before);
    lemma_cut_out(view, none, before, after, around);
    lemma_cut_out(view, before, after, none, around);
}

proof fn lemma_last_word(pieces: Seq<Seq<char>>, n: int, k: int)
    requires
        0 <= k < n <= pieces.len(),
        !blank(pieces[k]),
        forall|i: int| k < i < n ==> blank(#[trigger] pieces[i]),
    ensures
        last_word(pieces, n) == pieces_size(pieces, k),
    decreases n,
{
    if k < n - 1 {
        assert(blank(pieces[n - 1]));
        lemma_last_word(pieces, n - 1, k);
    }
}

proof fn lemma_no_word_before(pieces: Seq<Seq<char>>, n: int)
    requires
        0 <= n <= pieces.len(),
        forall|i: int| 0 <= i < n ==> blank(#[trigger] pieces[i]),
    ensures
        last_word(pieces, n) == 0,
    decreases n,
{
    if n > 0 {
        assert(blank(pieces[n - 1]));
        lemma_no_word_before(pieces, n - 1);
    }
}

proof fn lemma_first_word(pieces: Seq<Seq<char>>, n: int, k: int)
    requires
        0 <= n <= k < pieces.len(),
        !blank(pieces[k]),
        forall|i: int| n <= i < k ==> blank(#[trigger] pieces[i]),
    ensures
        first_word(pieces, n) == Some(pieces_size(pieces, k + 1)),
    decreases k - n,
{
    if n < k {
        assert(blank(pieces[n]));
        lemma_first_word(pieces, n + 1, k);
    }
}

/// The word before the cursor begins where the last piece of the text before it does that is
/// not white space.
pub proof fn law_previous_word_is_the_last_before(
    view: InputView,
    before: Seq<char>,
    after: Seq<char>,
    k: int,
)
    requires
        stands(view, before, after),
        0 <= k < word_pieces(before).len(),
        !crate::text::all_white(word_pieces(before)[k]),
        forall|i: int|
            k < i < word_pieces(before).len() ==> crate::text::all_white(
                #[trigger] word_pieces(before)[i],
            ),
    ensures
        view.previous_word() == crate::utf8::bytes(joined(word_pieces(before).take(k))),
{
    let pieces = word_pieces(before);
    crate::position::law_offsets_count_what_stands_before(before, after);
    assert(view.text.take(before.len() as int) =~= before);
    lemma_blank(pieces[k]);
    assert forall|i: int| k < i < pieces.len() implies blank(#[trigger] pieces[i]) by {
        lemma_blank(pieces[i]);
    }
    lemma_last_word(pieces, pieces.len() as int, k);
}

/// The word after the cursor ends where the first piece of the text after it does that is not
/// white space; where there is none, the text does.
pub proof fn law_next_word_is_the_first_after(
    view: InputView,
    before: Seq<char>,
    after: Seq<char>,
    k: int,
)
    requires
        stands(view, before, after),
        0 <= k < word_pieces(after).len(),
        !crate::text::all_white(word_pieces(after)[k]),
        forall|i: int|
            0 <= i < k ==> crate::text::all_white(#[trigger] word_pieces(after)[i]),
    ensures
        view.next_word() == crate::utf8::bytes(before) + crate::utf8::bytes(
            joined(word_pieces(after).take(k + 1)),
        ),
{
    let pieces = word_pieces(after);
    crate::position::law_offsets_count_what_stands_before(before, after);
    assert(view.text.skip(before.len() as int) =~= after);
    assert(view.text.take(before.len() as int) =~= before);
    lemma_blank(pieces[k]);
    assert forall|i: int| 0 <= i < k implies blank(#[trigger] pieces[i]) by {
        lemma_blank(pieces[i]);
    }
    lemma_first_word(pieces, 0, k);
}

proof fn lemma_blank(piece: Seq<char>)
    ensures
        blank(piece) <==> crate::text::all_white(piece),
    decreases piece.len(),
{
    if piece.len() > 0 {
        if crate::text::white_space(piece[0]) {
            lemma_blank(piece.skip(1));
            if crate::text::all_white(piece.skip(1)) {
                assert forall|i: int| 0 <= i < piece.len() implies crate::text::white_space(
                    #[trigger] piece[i],
                ) by {
                    if i > 0 {
                        assert(piece.skip(1)[i - 1] == piece[i]);
                    }
                }
            }
            if crate::text::all_white(piece) {
                assert forall|i: int| 0 <= i < piece.skip(1).len() implies crate::text::white_space(
                    #[trigger] piece.skip(1)[i],
                ) by {
                    assert(crate::text::white_space(piece[i + 1]));
                }
            }
        } else {
            assert(!crate::text::all_white(piece));
        }
    }
}

proof fn lemma_word_start(text: Seq<char>, k: int)
    requires
        0 <= k <= text.len(),
    ensures
        0 <= word_start(text, k) <= k,
        forall|i: int| word_start(text, k) <= i < k ==> in_word(#[trigger] text[i]),
        word_start(text, k) > 0 ==> !in_word(text[word_start(text, k) - 1]),
    decreases k,
{
    if k > 0 && in_word(text[k - 1]) {
        lemma_word_start(text, k - 1);
    }
}

proof fn lemma_word_end(text: Seq<char>, k: int)
    requires
        0 <= k <= text.len(),
    ensures
        k <= word_end(text, k) <= text.len(),
        forall|i: int| k <= i < word_end(text, k) ==> in_word(#[trigger] text[i]),
        word_end(text, k) < text.len() ==> !in_word(text[word_end(text, k)]),
    decreases text.len() - k,
{
    if k < text.len() && in_word(text[k]) {
        lemma_word_end(text, k + 1);
    }
}

/// A double click selects the whole word around it: letters, digits and underscores, as far as
/// they go on both sides, and nothing where there is none.
pub proof fn law_double_clicks_select_whole_words(view: InputView, offset: int)
    requires
        0 <= offset,
        crate::utf8::bytes(view.text) <= usize::MAX,
    ensures
        ({
            let k = crate::position::floor(view.text, offset);
            let (a, b) = view.word_around(k);
            let then = view.word_selected(offset);
            &&& 0 <= a <= k <= b <= view.text.len()
            &&& forall|i: int|
                a <= i < b ==> (alphanumeric(#[trigger] view.text[i]) || view.text[i] == '_')
            &&& a > 0 ==> !(alphanumeric(view.text[a - 1]) || view.text[a - 1] == '_')
            &&& b < view.text.len() ==> !(alphanumeric(view.text[b]) || view.text[b] == '_')
            &&& a == b ==> then == view
            &&& a < b ==> then.selected.start == crate::utf8::offset(view.text, a)
                && then.selected.end == crate::utf8::offset(view.text, b) && then.word == Some(
                then.selected,
            )
        }),
{
    crate::position::lemma_floor(view.text, offset);
    let k = crate::position::floor(view.text, offset);
    lemma_word_start(view.text, k);
    lemma_word_end(view.text, k);
    let (a, b) = view.word_around(k);
    crate::position::lemma_floor_of_offset(view.text, a);
    crate::position::lemma_floor_of_offset(view.text, b);
}

/// Setting a value leaves that value and nothing of what was there, with the cursor in front of
/// it, even in a field that is disabled, and it cannot be undone.
pub proof fn law_setting_a_value_leaves_it(view: InputView, value: Seq<char>, around: Surroundings)
    requires
        around.valid,
    ensures
        ({
            let then = view.with_value(value, around);
            &&& then.text == value
            &&& then.history.undos == view.history.undos
            &&& then.disabled == view.disabled
            &&& then.selected == Selection { start: 0, end: 0 }
            &&& then.marked is None
        }),
{
    lemma_overwritten(view.unlocked(), value);
}

proof fn lemma_overwritten(view: InputView, value: Seq<char>)
    ensures
        view.pending(0, view.size(), value) == value,
{
    let none = Seq::<char>::empty();
    assert(view.text =~= none + view.text + none);
    crate::rope::law_replacing_touches_only_the_part(none, view.text, none, value);
    assert(none + value + none =~= value);
}

/// Cleaning a field leaves nothing in it, if it is not disabled.
pub proof fn law_cleaning_leaves_nothing(view: InputView, around: Surroundings)
    ensures
        !view.disabled ==> view.cleaned(around).text.len() == 0,
        view.disabled ==> view.cleaned(around).text == view.text,
        view.cleaned(around).selected == (Selection { start: 0, end: 0 }),
{
    lemma_overwritten(view, Seq::empty());
}

/// A masked text is drawn with three bytes for each character, whatever it takes itself: the
/// place behind so many of them is the one behind as many characters.
pub proof fn law_masks_stand_for_characters(view: InputView, before: Seq<char>, after: Seq<char>)
    requires
        view.text == before + after,
    ensures
        view.masked ==> view.drawn_at(3 * before.len() as int) == crate::utf8::bytes(before),
        !view.masked ==> view.drawn_at(crate::utf8::bytes(before)) == crate::utf8::bytes(before),
{
    assert(view.text.take(before.len() as int) =~= before);
    crate::utf8::lemma_bytes_concat(before, after);
    crate::utf8::lemma_bytes_at_least(after);
}

/// A field that grows has as many rows as its text takes, but never fewer than its least and
/// never more than its most; one of several lines has as many as it is told, and one of a
/// single line never changes.
pub proof fn law_rows_stay_within_bounds(
    old_rows: usize,
    min_rows: usize,
    max_rows: usize,
    lines: usize,
)
    requires
        min_rows <= max_rows,
    ensures
        InputMode::SingleLine.with_rows(lines) == InputMode::SingleLine,
        (InputMode::MultiLine { rows: old_rows }).with_rows(lines) == (InputMode::MultiLine {
            rows: lines,
        }),
        ({
            let then = (InputMode::AutoGrow { rows: old_rows, min_rows, max_rows }).with_rows(lines);
            let rows = then->AutoGrow_rows;
            &&& then == (InputMode::AutoGrow { rows, min_rows, max_rows })
            &&& min_rows <= rows <= max_rows
            &&& min_rows <= lines <= max_rows ==> rows == lines
            &&& lines < min_rows ==> rows == min_rows
            &&& lines > max_rows ==> rows == max_rows
        }),
{
}

/// Text that an input method puts in for now stands where it was put, and is marked from its
/// start to its end; taking it back leaves nothing marked.
pub proof fn law_marked_text_is_put_in(
    view: InputView,
    before: Seq<char>,
    part: Seq<char>,
    after: Seq<char>,
    new_text: Seq<char>,
    around: Surroundings,
)
    requires
        selects(view, before, part, after),
        !view.disabled,
        around.valid,
        crate::utf8::bytes(before + new_text) <= usize::MAX,
    ensures
        ({
            let then = view.marked_in(None, new_text, None, around);
            &&& then.text == before + new_text + after
            &&& new_text.len() > 0 ==> then.marked == Some(
                Selection {
                    start: crate::utf8::bytes(before) as usize,
                    end: crate::utf8::bytes(before + new_text) as usize,
                },
            )
            &&& new_text.len() == 0 ==> then.marked is None
            &&& then.cursor() == crate::utf8::bytes(before + new_text)
        }),
{
    crate::rope::law_replacing_touches_only_the_part(before, part, after, new_text);
    crate::utf8::lemma_bytes_concat(before, new_text);
    crate::utf8::lemma_bytes_at_least(before + new_text);
    crate::utf8::lemma_bytes_at_least(before);
}

/// What can be selected of text that an input method puts in is told within it, and stands
/// where it was put.
pub proof fn law_marked_selection_is_within(
    view: InputView,
    new_text: Seq<char>,
    range: (usize, usize),
    around: Surroundings,
)
    requires
        view.can_mark(None, new_text, Some(range)),
        view.takes_replacement(None, new_text, around),
        new_text.len() > 0,
        view.selected.start == view.selected.end,
        view.marked is None,
    ensures
        ({
            let at = view.selected.start;
            let then = view.marked_in(None, new_text, Some(range), around);
            &&& then.selected.start == at + crate::position::from_utf16(then.text, range.0 as int)
            &&& then.selected.end == at + crate::position::from_utf16(then.text, range.1 as int)
        }),
{
    crate::position::law_utf16_gives_boundaries(
        view.pending(view.selected.start as int, view.selected.end as int, new_text),
        range.0 as int,
    );
    crate::position::law_utf16_gives_boundaries(
        view.pending(view.selected.start as int, view.selected.end as int, new_text),
        range.1 as int,
    );
}

/// The indent of a line is the white space that it starts with, and no more.
pub proof fn law_indents_are_leading_white_space(
    before: Seq<char>,
    space: Seq<char>,
    after: Seq<char>,
)
    requires
        crate::text::all_white(space),
        !space.contains('\n'),
        !space.contains('\r'),
        after.len() == 0 || !crate::text::white_space(after[0]) || after[0] == '\n' || after[0]
            == '\r',
    ensures
        indent(before + space + after, before.len() as int) == space,
    decreases space.len(),
{
    let s = before + space + after;
    if space.len() == 0 {
        if after.len() > 0 {
            assert(s[before.len() as int] == after[0]);
        }
        assert(indent(s, before.len() as int) =~= space);
    } else {
        let c = space[0];
        assert(s[before.len() as int] == c);
        assert(space.contains(c));
        assert(crate::text::white_space(c));
        let rest = space.skip(1);
        assert forall|i: int| 0 <= i < rest.len() implies crate::text::white_space(
            #[trigger] rest[i],
        ) && rest[i] != '\n' && rest[i] != '\r' by {
            assert(rest[i] == space[i + 1]);
            assert(space.contains(space[i + 1]));
            assert(crate::text::white_space(space[i + 1]));
        }
        law_indents_are_leading_white_space(before.push(c), rest, after);
        assert(before.push(c) + rest + after =~= s);
        assert(seq![c] + rest =~= space);
    }
}

/// The cursor is at the end of what is selected that was moved last.
pub proof fn law_the_cursor_is_where_selecting_went(view: InputView)
    requires
        view.marked is None,
    ensures
        view.reversed ==> view.cursor() == view.selected.start,
        !view.reversed ==> view.cursor() == view.selected.end,
{
}

/// A change that is judged on its own is taken or refused on its own verdict; one without a
/// verdict goes by the surroundings.
pub proof fn law_verdicts_are_for_their_own_change(around: Surroundings, verdicts: Seq<bool>, i: int)
    ensures
        0 <= i < verdicts.len() ==> around.judged(verdicts, i).valid == verdicts[i],
        i >= verdicts.len() ==> around.judged(verdicts, i).valid == around.valid,
        around.judged(verdicts, i).now == around.now,
        around.judged(verdicts, i).lines == around.lines,
{
}

/// With nothing selected, deleting between two places takes the part between them and leaves
/// the rest.
pub proof fn law_deleting_takes_the_part_between(
    view: InputView,
    before: Seq<char>,
    part: Seq<char>,
    after: Seq<char>,
    around: Surroundings,
)
    requires
        view.text == before + part + after,
        view.selected.start == view.selected.end,
        !view.disabled,
        around.valid,
    ensures
        view.deleted(
            crate::utf8::bytes(before),
            crate::utf8::bytes(before + part),
            around,
        ).text == before + after,
        view.takes_deletion(crate::utf8::bytes(before), crate::utf8::bytes(before + part), around),
{
    lemma_cut_out(view, before, part, after, around);
}

} // verus!
