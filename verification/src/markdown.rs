//! Markdown, laid out as blocks of styled text over one plain document, and the
//! selection in it.

use vstd::prelude::*;

use pulldown_cmark::{Event, Tag};

use crate::number::decimal;
use crate::text::{chars_of, same, starts_with, string_between};
use crate::utf8::{byte_len, char_width};

verus! {

/// Something in a Markdown text.
#[derive(Debug)]
pub enum MarkdownEvent {
    /// A tag begins, by the name of its end.
    Start { tag: String },
    /// A list begins, with its first number if it is a numbered one.
    List { start: Option<u64> },
    /// A tag ends.
    End { tag: String },
    Text { text: String },
    Code { text: String },
    SoftBreak,
    HardBreak,
    Other,
}

/// A [`MarkdownEvent`] as a value.
pub enum EventView {
    Start { tag: Seq<char> },
    List { start: Option<u64> },
    End { tag: Seq<char> },
    Text { text: Seq<char> },
    Code { text: Seq<char> },
    SoftBreak,
    HardBreak,
    Other,
}

impl View for MarkdownEvent {
    type V = EventView;

    open spec fn view(&self) -> EventView {
        match self {
            MarkdownEvent::Start { tag } => EventView::Start { tag: tag@ },
            MarkdownEvent::List { start } => EventView::List { start: *start },
            MarkdownEvent::End { tag } => EventView::End { tag: tag@ },
            MarkdownEvent::Text { text } => EventView::Text { text: text@ },
            MarkdownEvent::Code { text } => EventView::Code { text: text@ },
            MarkdownEvent::SoftBreak => EventView::SoftBreak,
            MarkdownEvent::HardBreak => EventView::HardBreak,
            MarkdownEvent::Other => EventView::Other,
        }
    }
}

/// Events as values.
pub open spec fn event_views(events: Seq<MarkdownEvent>) -> Seq<EventView> {
    events.map_values(|e: MarkdownEvent| e@)
}

/// The extensions that are read: strikethrough and tables, each by its bit.
pub const EXTENSIONS: u32 = 10;

/// What is in a Markdown text, in order: what `pulldown_cmark::Parser` gives, with
/// the extensions that have their bits set.
pub uninterp spec fn markdown_events(text: Seq<char>, extensions: u32) -> Seq<EventView>;

/// `pulldown_cmark::Parser::new_ext` reads a text, and each of the events it gives
/// is told by its kind. Tags go by the name that `pulldown_cmark::TagEnd` has when
/// it is written out for debugging.
#[verifier::external_body]
fn parse_events(text: &str, extensions: u32) -> (r: Vec<MarkdownEvent>)
    ensures
        event_views(r@) == markdown_events(text@, extensions),
{
    let options = pulldown_cmark::Options::from_bits_truncate(extensions);
    let parser = pulldown_cmark::Parser::new_ext(text, options);
    let told = parser.map(|event| match event {
        Event::Start(Tag::List(start)) => MarkdownEvent::List { start },
        Event::Start(tag) => MarkdownEvent::Start { tag: format!("{:?}", tag.to_end()) },
        Event::End(end) => MarkdownEvent::End { tag: format!("{:?}", end) },
        Event::Text(text) => MarkdownEvent::Text { text: text.into_string() },
        Event::Code(code) => MarkdownEvent::Code { text: code.into_string() },
        Event::SoftBreak => MarkdownEvent::SoftBreak,
        Event::HardBreak => MarkdownEvent::HardBreak,
        _ => MarkdownEvent::Other,
    });
    told.collect()
}

/// How a stretch of text is drawn.
#[derive(Clone, Copy, Debug, PartialEq, Eq, Structural)]
pub struct Style {
    pub bold: bool,
    pub italic: bool,
    pub struck: bool,
    pub code: bool,
}

/// Plain text.
pub open spec fn plain() -> Style {
    Style { bold: false, italic: false, struck: false, code: false }
}

/// The style that several make together.
pub open spec fn combined(styles: Seq<Style>) -> Style
    decreases styles.len(),
{
    if styles.len() == 0 {
        plain()
    } else {
        let before = combined(styles.drop_last());
        let last = styles.last();
        Style {
            bold: before.bold || last.bold,
            italic: before.italic || last.italic,
            struck: before.struck || last.struck,
            code: before.code || last.code,
        }
    }
}

/// A stretch of a block's text, by its bytes, and how it is drawn.
#[derive(Clone, Copy, Debug, PartialEq, Eq, Structural)]
pub struct Highlight {
    pub start: usize,
    pub end: usize,
    pub style: Style,
}

/// What a block is.
#[derive(Clone, Copy, Debug, PartialEq, Eq, Structural)]
pub enum BlockKind {
    Heading { level: u8 },
    Code,
    Quote,
    Plain,
}

/// How large the text of a heading is.
pub fn heading_size(level: u8) -> (r: u32)
    ensures
        r == (match level {
            1 => 24u32,
            2 => 20u32,
            3 => 18u32,
            _ => 16u32,
        }),
{
    match level {
        1 => 24,
        2 => 20,
        3 => 18,
        _ => 16,
    }
}

/// A block of text.
#[derive(Debug)]
pub struct Block {
    pub text: String,
    pub highlights: Vec<Highlight>,
    pub kind: BlockKind,
    /// Where its text stands in the document, by bytes.
    pub start: usize,
    pub end: usize,
}

/// A [`Block`] as a value.
#[verifier::ext_equal]
pub struct BlockView {
    pub text: Seq<char>,
    pub highlights: Seq<Highlight>,
    pub kind: BlockKind,
    pub start: int,
    pub end: int,
}

impl View for Block {
    type V = BlockView;

    open spec fn view(&self) -> BlockView {
        BlockView {
            text: self.text@,
            highlights: self.highlights@,
            kind: self.kind,
            start: self.start as int,
            end: self.end as int,
        }
    }
}

/// Blocks as values.
pub open spec fn block_views(blocks: Seq<Block>) -> Seq<BlockView> {
    blocks.map_values(|b: Block| b@)
}

/// A document under construction.
#[verifier::ext_equal]
pub struct BuildView {
    pub blocks: Seq<BlockView>,
    pub document: Seq<char>,
    /// The text of the block under construction, and how it is drawn.
    pub inline: Seq<char>,
    pub highlights: Seq<Highlight>,
    /// The styles and the lists that are open.
    pub styles: Seq<Style>,
    pub lists: Seq<Option<u64>>,
    /// The number that the next item of a numbered list gets.
    pub item: u64,
    pub heading: Option<u8>,
    pub in_code: bool,
    pub in_quote: bool,
}

/// The level of a heading, by the name of its tag.
pub open spec fn level_of(tag: Seq<char>) -> Option<u8> {
    if tag == "Heading(H1)"@ {
        Some(1)
    } else if tag == "Heading(H2)"@ {
        Some(2)
    } else if tag == "Heading(H3)"@ {
        Some(3)
    } else if tag == "Heading(H4)"@ {
        Some(4)
    } else if tag == "Heading(H5)"@ {
        Some(5)
    } else if tag == "Heading(H6)"@ {
        Some(6)
    } else {
        None
    }
}

fn read_level(tag: &str) -> (r: Option<u8>)
    ensures
        r == level_of(tag@),
{
    if same(tag, "Heading(H1)") {
        Some(1)
    } else if same(tag, "Heading(H2)") {
        Some(2)
    } else if same(tag, "Heading(H3)") {
        Some(3)
    } else if same(tag, "Heading(H4)") {
        Some(4)
    } else if same(tag, "Heading(H5)") {
        Some(5)
    } else if same(tag, "Heading(H6)") {
        Some(6)
    } else {
        None
    }
}

/// The style that a tag opens.
pub open spec fn style_of(tag: Seq<char>) -> Option<Style> {
    if tag == "Strong"@ {
        Some(Style { bold: true, ..plain() })
    } else if tag == "Emphasis"@ {
        Some(Style { italic: true, ..plain() })
    } else if tag == "Strikethrough"@ {
        Some(Style { struck: true, ..plain() })
    } else {
        None
    }
}

fn read_style(tag: &str) -> (r: Option<Style>)
    ensures
        r == style_of(tag@),
{
    if same(tag, "Strong") {
        Some(Style { bold: true, italic: false, struck: false, code: false })
    } else if same(tag, "Emphasis") {
        Some(Style { bold: false, italic: true, struck: false, code: false })
    } else if same(tag, "Strikethrough") {
        Some(Style { bold: false, italic: false, struck: true, code: false })
    } else {
        None
    }
}

/// Whether a tag is that of a quote.
pub open spec fn is_quote(tag: Seq<char>) -> bool {
    "BlockQuote"@.is_prefix_of(tag)
}

/// Whether a tag is that of a list.
pub open spec fn is_list(tag: Seq<char>) -> bool {
    "List"@.is_prefix_of(tag)
}

impl BuildView {
    /// Nothing yet.
    pub open spec fn empty() -> BuildView {
        BuildView {
            blocks: Seq::empty(),
            document: Seq::empty(),
            inline: Seq::empty(),
            highlights: Seq::empty(),
            styles: Seq::empty(),
            lists: Seq::empty(),
            item: 0,
            heading: None,
            in_code: false,
            in_quote: false,
        }
    }

    /// What the block under construction is.
    pub open spec fn kind(self) -> BlockKind {
        match self.heading {
            Some(level) => BlockKind::Heading { level },
            None => if self.in_code {
                BlockKind::Code
            } else if self.in_quote {
                BlockKind::Quote
            } else {
                BlockKind::Plain
            },
        }
    }

    /// The block under construction is done, if there is any text in it: it takes a
    /// line of its own at the end of the document.
    pub open spec fn flushed(self) -> BuildView {
        if self.inline.len() == 0 {
            self
        } else {
            let start = crate::utf8::bytes(self.document);
            BuildView {
                blocks: self.blocks.push(
                    BlockView {
                        text: self.inline,
                        highlights: self.highlights,
                        kind: self.kind(),
                        start,
                        end: start + crate::utf8::bytes(self.inline),
                    },
                ),
                document: (self.document + self.inline).push('\n'),
                inline: Seq::empty(),
                highlights: Seq::empty(),
                heading: None,
                ..self
            }
        }
    }

    /// What goes in front of an item: its number, or a bullet.
    pub open spec fn item_prefix(self) -> Seq<char> {
        if self.lists.len() > 0 && self.lists.last() is Some {
            crate::number::written(self.item as int, 10) + ". "@
        } else {
            "• "@
        }
    }

    /// An item begins.
    pub open spec fn item_started(self) -> BuildView {
        let after = self.flushed();
        BuildView {
            inline: after.inline + after.item_prefix(),
            item: if after.lists.len() > 0 && after.lists.last() is Some {
                if after.item == u64::MAX {
                    0
                } else {
                    (after.item + 1) as u64
                }
            } else {
                after.item
            },
            ..after
        }
    }

    /// A tag begins.
    pub open spec fn started(self, tag: Seq<char>) -> BuildView {
        if level_of(tag) is Some {
            BuildView { heading: level_of(tag), ..self }
        } else if tag == "CodeBlock"@ {
            BuildView { in_code: true, ..self.flushed() }
        } else if is_quote(tag) {
            BuildView { in_quote: true, ..self }
        } else if tag == "Item"@ {
            self.item_started()
        } else {
            match style_of(tag) {
                Some(style) => BuildView { styles: self.styles.push(style), ..self },
                None => self,
            }
        }
    }

    /// A tag ends.
    pub open spec fn ended(self, tag: Seq<char>) -> BuildView {
        if tag == "Paragraph"@ || level_of(tag) is Some || tag == "Item"@ {
            self.flushed()
        } else if tag == "CodeBlock"@ {
            BuildView { in_code: false, ..self.flushed() }
        } else if is_quote(tag) {
            BuildView { in_quote: false, ..self }
        } else if is_list(tag) {
            BuildView {
                lists: if self.lists.len() > 0 {
                    self.lists.drop_last()
                } else {
                    self.lists
                },
                ..self
            }
        } else if style_of(tag) is Some {
            BuildView {
                styles: if self.styles.len() > 0 {
                    self.styles.drop_last()
                } else {
                    self.styles
                },
                ..self
            }
        } else {
            self
        }
    }

    /// Text is added, drawn in a style.
    pub open spec fn with_text(self, text: Seq<char>, style: Style) -> BuildView {
        let start = crate::utf8::bytes(self.inline);
        BuildView {
            inline: self.inline + text,
            highlights: if style == plain() {
                self.highlights
            } else {
                self.highlights.push(
                    Highlight {
                        start: start as usize,
                        end: (start + crate::utf8::bytes(text)) as usize,
                        style,
                    },
                )
            },
            ..self
        }
    }

    /// One more event.
    pub open spec fn step(self, event: EventView) -> BuildView {
        match event {
            EventView::Start { tag } => self.started(tag),
            EventView::List { start } => BuildView {
                lists: self.lists.push(start),
                item: match start {
                    Some(start) => start,
                    None => 1,
                },
                ..self
            },
            EventView::End { tag } => self.ended(tag),
            EventView::Text { text } => self.with_text(text, combined(self.styles)),
            EventView::Code { text } => self.with_text(text, Style { code: true, ..plain() }),
            EventView::SoftBreak => BuildView { inline: self.inline.push(' '), ..self },
            EventView::HardBreak => BuildView { inline: self.inline.push('\n'), ..self },
            EventView::Other => self,
        }
    }
}

/// A document once the first `n` events were read.
pub open spec fn read_events(events: Seq<EventView>, n: int) -> BuildView
    decreases n,
{
    if n <= 0 {
        BuildView::empty()
    } else {
        read_events(events, n - 1).step(events[n - 1])
    }
}

/// A document that is done.
#[derive(Debug)]
pub struct RenderedMarkdown {
    pub blocks: Vec<Block>,
    pub document_text: String,
}

struct Builder {
    blocks: Vec<Block>,
    document: String,
    inline: String,
    highlights: Vec<Highlight>,
    styles: Vec<Style>,
    lists: Vec<Option<u64>>,
    item: u64,
    heading: Option<u8>,
    in_code: bool,
    in_quote: bool,
}

impl View for Builder {
    type V = BuildView;

    closed spec fn view(&self) -> BuildView {
        BuildView {
            blocks: block_views(self.blocks@),
            document: self.document@,
            inline: self.inline@,
            highlights: self.highlights@,
            styles: self.styles@,
            lists: self.lists@,
            item: self.item,
            heading: self.heading,
            in_code: self.in_code,
            in_quote: self.in_quote,
        }
    }
}

impl Builder {
    fn new() -> (r: Self)
        ensures
            r@ == BuildView::empty(),
    {
        let builder = Builder {
            blocks: Vec::new(),
            document: String::new(),
            inline: String::new(),
            highlights: Vec::new(),
            styles: Vec::new(),
            lists: Vec::new(),
            item: 0,
            heading: None,
            in_code: false,
            in_quote: false,
        };
        assert(builder@ =~= BuildView::empty());
        builder
    }

    fn flush(&mut self)
        ensures
            final(self)@ == old(self)@.flushed(),
    {
        if self.inline.as_str().is_empty() {
            assert(self@.inline.len() == 0);
            return;
        }
        let kind = match self.heading {
            Some(level) => BlockKind::Heading { level },
            None => {
                if self.in_code {
                    BlockKind::Code
                } else if self.in_quote {
                    BlockKind::Quote
                } else {
                    BlockKind::Plain
                }
            },
        };
        self.heading = None;
        let start: usize = byte_len(&self.document);
        self.document.append(&self.inline);
        let end: usize = byte_len(&self.document);
        proof {
            crate::utf8::lemma_bytes_concat(old(self).document@, old(self).inline@);
        }
        self.document.push('\n');
        let text = self.inline.clone();
        self.inline = String::new();
        let mut highlights: Vec<Highlight> = Vec::new();
        highlights.append(&mut self.highlights);
        assert(highlights@ =~= old(self).highlights@);
        let block = Block { text, highlights, kind, start, end };
        self.blocks.push(block);
        assert(block_views(self.blocks@) =~= block_views(old(self).blocks@).push(block@));
        assert(self@ =~= old(self)@.flushed());
    }

    fn start_item(&mut self)
        ensures
            final(self)@ == old(self)@.item_started(),
    {
        self.flush();
        let ghost after = self@;
        let numbered: bool = if self.lists.len() > 0 {
            self.lists[self.lists.len() - 1].is_some()
        } else {
            false
        };
        if numbered {
            self.inline.append(&decimal(self.item));
            self.inline.append(". ");
            assert(self.inline@ =~= after.inline + after.item_prefix());
            self.item = self.item.wrapping_add(1);
        } else {
            self.inline.append("• ");
        }
        assert(self@ =~= old(self)@.item_started());
    }

    fn start(&mut self, tag: &str)
        ensures
            final(self)@ == old(self)@.started(tag@),
    {
        let level = read_level(tag);
        if level.is_some() {
            self.heading = level;
        } else if same(tag, "CodeBlock") {
            self.flush();
            self.in_code = true;
        } else if starts_with(tag, "BlockQuote") {
            self.in_quote = true;
        } else if same(tag, "Item") {
            self.start_item();
        } else if let Some(style) = read_style(tag) {
            self.styles.push(style);
        }
    }

    fn end(&mut self, tag: &str)
        ensures
            final(self)@ == old(self)@.ended(tag@),
    {
        if same(tag, "Paragraph") || read_level(tag).is_some() || same(tag, "Item") {
            self.flush();
        } else if same(tag, "CodeBlock") {
            self.flush();
            self.in_code = false;
        } else if starts_with(tag, "BlockQuote") {
            self.in_quote = false;
        } else if starts_with(tag, "List") {
            let _ = self.lists.pop();
        } else if read_style(tag).is_some() {
            let _ = self.styles.pop();
        }
        assert(self@ =~= old(self)@.ended(tag@));
    }

    fn current_style(&self) -> (r: Style)
        ensures
            r == combined(self@.styles),
    {
        let mut style = Style { bold: false, italic: false, struck: false, code: false };
        assert(self.styles@.take(0) =~= Seq::<Style>::empty());
        for i in 0..self.styles.len()
            invariant
                style == combined(self.styles@.take(i as int)),
        {
            let one = self.styles[i];
            assert(self.styles@.take(i + 1).drop_last() =~= self.styles@.take(i as int));
            style = Style {
                bold: style.bold || one.bold,
                italic: style.italic || one.italic,
                struck: style.struck || one.struck,
                code: style.code || one.code,
            };
        }
        assert(self.styles@.take(self.styles@.len() as int) =~= self.styles@);
        style
    }

    fn add_text(&mut self, text: &str, style: Style)
        ensures
            final(self)@ == old(self)@.with_text(text@, style),
    {
        let start: usize = byte_len(&self.inline);
        self.inline.append(text);
        let end: usize = byte_len(&self.inline);
        proof {
            crate::utf8::lemma_bytes_concat(old(self).inline@, text@);
        }
        if style.bold || style.italic || style.struck || style.code {
            self.highlights.push(Highlight { start, end, style });
        }
        assert(self@ =~= old(self)@.with_text(text@, style));
    }

    fn apply(&mut self, event: &MarkdownEvent)
        ensures
            final(self)@ == old(self)@.step(event@),
    {
        match event {
            MarkdownEvent::Start { tag } => {
                self.start(tag);
            },
            MarkdownEvent::List { start } => {
                self.lists.push(*start);
                self.item = match start {
                    Some(start) => *start,
                    None => 1,
                };
            },
            MarkdownEvent::End { tag } => {
                self.end(tag);
            },
            MarkdownEvent::Text { text } => {
                let style = self.current_style();
                self.add_text(text, style);
            },
            MarkdownEvent::Code { text } => {
                self.add_text(
                    text,
                    Style { bold: false, italic: false, struck: false, code: true },
                );
            },
            MarkdownEvent::SoftBreak => {
                self.inline.push(' ');
            },
            MarkdownEvent::HardBreak => {
                self.inline.push('\n');
            },
            MarkdownEvent::Other => {},
        }
    }
}

/// Lays events out as a document.
pub fn build_document(events: &Vec<MarkdownEvent>) -> (r: RenderedMarkdown)
    ensures
        ({
            let done = read_events(event_views(events@), events@.len() as int).flushed();
            block_views(r.blocks@) == done.blocks && r.document_text@ == done.document
        }),
{
    let ghost all = event_views(events@);
    let mut builder = Builder::new();
    for i in 0..events.len()
        invariant
            all == event_views(events@),
            builder@ == read_events(all, i as int),
    {
        builder.apply(&events[i]);
    }
    builder.flush();
    RenderedMarkdown { blocks: builder.blocks, document_text: builder.document }
}

/// Lays a Markdown text out as a document.
pub fn build_markdown(text: &str) -> (r: RenderedMarkdown)
    ensures
        ({
            let events = markdown_events(text@, EXTENSIONS);
            let done = read_events(events, events.len() as int).flushed();
            block_views(r.blocks@) == done.blocks && r.document_text@ == done.document
        }),
{
    let events = parse_events(text, EXTENSIONS);
    build_document(&events)
}

/// The texts of blocks, each on a line of its own.
pub open spec fn lines(blocks: Seq<BlockView>) -> Seq<char>
    decreases blocks.len(),
{
    if blocks.len() == 0 {
        Seq::empty()
    } else {
        (lines(blocks.drop_last()) + blocks.last().text).push('\n')
    }
}

/// Whether a document is the texts of its blocks, each of which stands where it is
/// said to stand.
pub open spec fn laid_out(blocks: Seq<BlockView>, document: Seq<char>) -> bool {
    &&& document == lines(blocks)
    &&& forall|i: int|
        0 <= i < blocks.len() ==> {
            &&& (#[trigger] blocks[i]).text.len() > 0
            &&& blocks[i].start == crate::utf8::bytes(lines(blocks.take(i)))
            &&& blocks[i].end == blocks[i].start + crate::utf8::bytes(blocks[i].text)
        }
}

proof fn lemma_flushed_is_laid_out(build: BuildView)
    requires
        laid_out(build.blocks, build.document),
    ensures
        laid_out(build.flushed().blocks, build.flushed().document),
{
    let after = build.flushed();
    if build.inline.len() > 0 {
        assert(after.blocks.drop_last() =~= build.blocks);
        assert forall|i: int| 0 <= i < after.blocks.len() implies {
            &&& (#[trigger] after.blocks[i]).text.len() > 0
            &&& after.blocks[i].start == crate::utf8::bytes(lines(after.blocks.take(i)))
            &&& after.blocks[i].end == after.blocks[i].start + crate::utf8::bytes(
                after.blocks[i].text,
            )
        } by {
            if i < build.blocks.len() {
                assert(after.blocks[i] == build.blocks[i]);
                assert(after.blocks.take(i) =~= build.blocks.take(i));
            } else {
                assert(after.blocks.take(i) =~= build.blocks);
            }
        }
    }
}

proof fn lemma_read_is_laid_out(events: Seq<EventView>, n: int)
    ensures
        laid_out(read_events(events, n).blocks, read_events(events, n).document),
    decreases n,
{
    if n > 0 {
        lemma_read_is_laid_out(events, n - 1);
        lemma_flushed_is_laid_out(read_events(events, n - 1));
    }
}

/// A document is the texts of its blocks, each on a line of its own, and every
/// block's range is where its text stands in it.
pub proof fn law_document_is_its_blocks(events: Seq<EventView>)
    ensures
        ({
            let done = read_events(events, events.len() as int).flushed();
            laid_out(done.blocks, done.document)
        }),
{
    lemma_read_is_laid_out(events, events.len() as int);
    lemma_flushed_is_laid_out(read_events(events, events.len() as int));
}

/// What is selected of a document, from where it was begun to where it was dragged
/// to, by bytes.
#[derive(Clone, Copy, Debug, PartialEq, Eq, Structural)]
pub struct Selection {
    pub start: usize,
    pub end: usize,
    /// Whether the mouse is still down.
    pub pending: bool,
}

impl Selection {
    /// Nothing is selected.
    pub fn new() -> (r: Self)
        ensures
            r == (Selection { start: 0, end: 0, pending: false }),
    {
        Selection { start: 0, end: 0, pending: false }
    }

    /// Where the selection begins, whichever way it was dragged.
    pub open spec fn low(self) -> usize {
        if self.start <= self.end {
            self.start
        } else {
            self.end
        }
    }

    /// Where it ends.
    pub open spec fn high(self) -> usize {
        if self.start <= self.end {
            self.end
        } else {
            self.start
        }
    }

    pub fn range(&self) -> (r: (usize, usize))
        ensures
            r == (self.low(), self.high()),
    {
        if self.start <= self.end {
            (self.start, self.end)
        } else {
            (self.end, self.start)
        }
    }

    /// The mouse goes down: a selection begins.
    pub fn press(&mut self, offset: usize)
        ensures
            *final(self) == (Selection { start: offset, end: offset, pending: true }),
    {
        *self = Selection { start: offset, end: offset, pending: true };
    }

    /// The mouse moves: the selection follows while it is down.
    pub fn drag(&mut self, offset: usize)
        ensures
            *final(self) == (if old(self).pending {
                Selection { end: offset, ..*old(self) }
            } else {
                *old(self)
            }),
    {
        if self.pending {
            self.end = offset;
        }
    }

    /// The mouse goes up: the selection stays as it is.
    pub fn release(&mut self)
        ensures
            *final(self) == (Selection { pending: false, ..*old(self) }),
    {
        self.pending = false;
    }
}

/// Whether a byte offset falls between two characters of a text.
pub open spec fn is_boundary(text: Seq<char>, at: int) -> bool {
    exists|i: int| 0 <= i <= text.len() && #[trigger] crate::utf8::offset(text, i) == at
}

/// The part of a text between two byte offsets.
pub open spec fn between(text: Seq<char>, from: int, to: int) -> Seq<char> {
    let i = choose|i: int| 0 <= i <= text.len() && #[trigger] crate::utf8::offset(text, i) == from;
    let j = choose|j: int| 0 <= j <= text.len() && #[trigger] crate::utf8::offset(text, j) == to;
    text.subrange(i, j)
}

/// The character at which a byte offset falls.
fn char_index(chars: &Vec<char>, at: usize) -> (r: usize)
    requires
        is_boundary(chars@, at as int),
    ensures
        r <= chars@.len(),
        crate::utf8::offset(chars@, r as int) == at,
{
    let ghost goal = choose|i: int|
        0 <= i <= chars@.len() && #[trigger] crate::utf8::offset(chars@, i) == at;
    let n: usize = chars.len();
    let mut i: usize = 0;
    let mut offset: usize = 0;
    assert(chars@.take(0) =~= Seq::<char>::empty());
    while offset < at
        invariant
            i <= goal <= n,
            n == chars@.len(),
            offset == crate::utf8::offset(chars@, i as int),
            crate::utf8::offset(chars@, goal) == at,
        decreases goal - i,
    {
        proof {
            if i == goal {
                assert(false);
            }
            crate::utf8::lemma_offset_step(chars@, i as int);
            crate::utf8::lemma_offset_increases(chars@, i + 1, goal);
        }
        offset = offset + char_width(chars[i]);
        i = i + 1;
    }
    proof {
        crate::utf8::lemma_offset_increases(chars@, i as int, goal);
    }
    i
}

/// What is copied of a document: what is selected of it, if anything is.
pub fn copied(document: &str, selection: &Selection) -> (r: Option<String>)
    requires
        selection.high() <= crate::utf8::bytes(document@) ==> is_boundary(
            document@,
            selection.low() as int,
        ) && is_boundary(document@, selection.high() as int),
    ensures
        crate::text::opt_view(r) == (if selection.low() < selection.high() && selection.high()
            <= crate::utf8::bytes(document@) {
            Some(between(document@, selection.low() as int, selection.high() as int))
        } else {
            None
        }),
{
    let (low, high) = selection.range();
    if low < high && high <= byte_len(document) {
        let chars = chars_of(document);
        let from: usize = char_index(&chars, low);
        let to: usize = char_index(&chars, high);
        proof {
            lemma_one_boundary(document@, from as int, to as int);
            if to < from {
                crate::utf8::lemma_offset_increases(document@, to as int, from as int);
            }
        }
        Some(string_between(&chars, from, to))
    } else {
        None
    }
}

proof fn lemma_one_boundary(text: Seq<char>, from: int, to: int)
    requires
        0 <= from <= text.len(),
        0 <= to <= text.len(),
    ensures
        between(text, crate::utf8::offset(text, from), crate::utf8::offset(text, to))
            == text.subrange(from, to),
{
    let a = crate::utf8::offset(text, from);
    let b = crate::utf8::offset(text, to);
    let i = choose|i: int| 0 <= i <= text.len() && #[trigger] crate::utf8::offset(text, i) == a;
    let j = choose|j: int| 0 <= j <= text.len() && #[trigger] crate::utf8::offset(text, j) == b;
    if i <= from {
        crate::utf8::lemma_offset_increases(text, i, from);
    } else {
        crate::utf8::lemma_offset_increases(text, from, i);
    }
    if j <= to {
        crate::utf8::lemma_offset_increases(text, j, to);
    } else {
        crate::utf8::lemma_offset_increases(text, to, j);
    }
}

/// The part of a block that is selected, by bytes of its own text; nothing where
/// the selection does not reach into it.
pub fn selected_part(selection: &Selection, start: usize, end: usize) -> (r: Option<(usize, usize)>)
    requires
        start <= end,
    ensures
        r == (if selection.low() == selection.high() || selection.high() <= start
            || selection.low() >= end {
            None
        } else {
            Some(
                (
                    if selection.low() >= start {
                        (selection.low() - start) as usize
                    } else {
                        0
                    },
                    if selection.high() <= end {
                        (selection.high() - start) as usize
                    } else {
                        (end - start) as usize
                    },
                ),
            )
        }),
{
    let (low, high) = selection.range();
    if low == high || high <= start || low >= end {
        return None;
    }
    let local_start: usize = if low >= start {
        low - start
    } else {
        0
    };
    let local_end: usize = if high <= end {
        high - start
    } else {
        end - start
    };
    Some((local_start, local_end))
}

/// A block as it stands on the screen: from top to bottom, in whatever unit, and
/// where its text stands in the document.
#[derive(Clone, Copy, Debug, PartialEq, Eq, Structural)]
pub struct PlacedBlock {
    pub top: i32,
    pub height: u32,
    pub start: usize,
    pub end: usize,
    /// The byte of the block's text that is nearest to the mouse.
    pub index: usize,
}

/// Whether a position is in the gap between the block above and this one.
pub open spec fn in_gap(y: int, above: Option<(int, usize)>, block: PlacedBlock) -> bool {
    match above {
        Some((bottom, _)) => bottom <= y < block.top,
        None => false,
    }
}

/// Whether a position in the gap is closer to the block above.
pub open spec fn nearer_above(y: int, above: Option<(int, usize)>, block: PlacedBlock) -> bool {
    match above {
        Some((bottom, _)) => 2 * y < bottom + block.top,
        None => false,
    }
}

/// Where the block above ends in the document.
pub open spec fn end_above(above: Option<(int, usize)>) -> int {
    match above {
        Some((_, end)) => end as int,
        None => 0,
    }
}

/// The offset that a position stands for, from the `k`-th block on, below a block
/// that ended at `above`.
pub open spec fn offset_from(
    y: int,
    blocks: Seq<PlacedBlock>,
    k: int,
    above: Option<(int, usize)>,
) -> int
    decreases blocks.len() - k,
{
    if k >= blocks.len() {
        if blocks.len() > 0 {
            blocks.last().end as int
        } else {
            0
        }
    } else {
        let block = blocks[k];
        let bottom = block.top + block.height;
        if block.height == 0 {
            offset_from(y, blocks, k + 1, above)
        } else if in_gap(y, above, block) {
            if nearer_above(y, above, block) {
                end_above(above)
            } else {
                block.start as int
            }
        } else if block.top <= y < bottom {
            block.start + if block.index <= block.end - block.start {
                block.index as int
            } else {
                block.end - block.start
            }
        } else {
            offset_from(y, blocks, k + 1, Some((bottom, block.end)))
        }
    }
}

/// The offset into the document that a position stands for. Within a block that is
/// the byte nearest to the mouse; in the gap between two, the end of the one or the
/// start of the other, whichever is closer; below all of them, the end.
pub fn offset_for_position(y: i32, blocks: &Vec<PlacedBlock>) -> (r: usize)
    requires
        forall|i: int| 0 <= i < blocks@.len() ==> (#[trigger] blocks@[i]).start <= blocks@[i].end,
    ensures
        r == offset_from(y as int, blocks@, 0, None),
{
    let mut above: Option<(i64, usize)> = None;
    let mut k: usize = 0;
    while k < blocks.len()
        invariant
            k <= blocks@.len(),
            forall|i: int|
                0 <= i < blocks@.len() ==> (#[trigger] blocks@[i]).start <= blocks@[i].end,
            above matches Some((bottom, _)) ==> i32::MIN <= bottom <= i32::MAX + u32::MAX,
            offset_from(y as int, blocks@, 0, None) == offset_from(
                y as int,
                blocks@,
                k as int,
                match above {
                    Some((bottom, end)) => Some((bottom as int, end)),
                    None => None,
                },
            ),
        decreases blocks@.len() - k,
    {
        let block = blocks[k];
        if block.height != 0 {
            let at: i64 = y as i64;
            let top: i64 = block.top as i64;
            let bottom: i64 = top + block.height as i64;
            if let Some((previous, end)) = above {
                if at >= previous && at < top {
                    return if 2 * at < previous + top {
                        end
                    } else {
                        block.start
                    };
                }
            }
            if at >= top && at < bottom {
                let length: usize = block.end - block.start;
                return if block.index <= length {
                    block.start + block.index
                } else {
                    block.end
                };
            }
            above = Some((bottom, block.end));
        }
        k = k + 1;
    }
    if blocks.len() > 0 {
        blocks[blocks.len() - 1].end
    } else {
        0
    }
}

/// The names of the six tags of headings, by their level.
pub open spec fn heading_tag(tag: Seq<char>, level: u8) -> bool {
    ||| tag == "Heading(H1)"@ && level == 1
    ||| tag == "Heading(H2)"@ && level == 2
    ||| tag == "Heading(H3)"@ && level == 3
    ||| tag == "Heading(H4)"@ && level == 4
    ||| tag == "Heading(H5)"@ && level == 5
    ||| tag == "Heading(H6)"@ && level == 6
}

proof fn lemma_tags_differ()
    ensures
        "Heading(H1)"@ != "Heading(H2)"@,
        "Heading(H1)"@ != "Heading(H3)"@,
        "Heading(H1)"@ != "Heading(H4)"@,
        "Heading(H1)"@ != "Heading(H5)"@,
        "Heading(H1)"@ != "Heading(H6)"@,
        "Heading(H2)"@ != "Heading(H3)"@,
        "Heading(H2)"@ != "Heading(H4)"@,
        "Heading(H2)"@ != "Heading(H5)"@,
        "Heading(H2)"@ != "Heading(H6)"@,
        "Heading(H3)"@ != "Heading(H4)"@,
        "Heading(H3)"@ != "Heading(H5)"@,
        "Heading(H3)"@ != "Heading(H6)"@,
        "Heading(H4)"@ != "Heading(H5)"@,
        "Heading(H4)"@ != "Heading(H6)"@,
        "Heading(H5)"@ != "Heading(H6)"@,
        level_of("CodeBlock"@) is None,
        level_of("Paragraph"@) is None,
        level_of("Item"@) is None,
        level_of("BlockQuote"@) is None,
        level_of("Strong"@) is None,
        level_of("Emphasis"@) is None,
        level_of("Strikethrough"@) is None,
        !is_quote("CodeBlock"@) && !is_quote("Paragraph"@) && !is_quote("Item"@),
        !is_quote("Strong"@) && !is_quote("Emphasis"@) && !is_quote("Strikethrough"@),
        !is_list("CodeBlock"@) && !is_list("Paragraph"@) && !is_list("Item"@),
        !is_list("Strong"@) && !is_list("Emphasis"@) && !is_list("Strikethrough"@),
        "CodeBlock"@ != "Paragraph"@ && "CodeBlock"@ != "Item"@ && "Item"@ != "Paragraph"@,
        "Strong"@ != "CodeBlock"@ && "Strong"@ != "Item"@ && "Strong"@ != "Paragraph"@,
        "Emphasis"@ != "CodeBlock"@ && "Emphasis"@ != "Item"@ && "Emphasis"@ != "Paragraph"@,
        "Strikethrough"@ != "CodeBlock"@ && "Strikethrough"@ != "Item"@ && "Strikethrough"@
            != "Paragraph"@,
        "Strong"@ != "Emphasis"@ && "Strong"@ != "Strikethrough"@ && "Emphasis"@
            != "Strikethrough"@,
{
    reveal_strlit("Heading(H1)");
    reveal_strlit("Heading(H2)");
    reveal_strlit("Heading(H3)");
    reveal_strlit("Heading(H4)");
    reveal_strlit("Heading(H5)");
    reveal_strlit("Heading(H6)");
    reveal_strlit("CodeBlock");
    reveal_strlit("Paragraph");
    reveal_strlit("Item");
    reveal_strlit("BlockQuote");
    reveal_strlit("List");
    reveal_strlit("Strong");
    reveal_strlit("Emphasis");
    reveal_strlit("Strikethrough");
    assert("Heading(H1)"@[9] == '1');
    assert("Heading(H2)"@[9] == '2');
    assert("Heading(H3)"@[9] == '3');
    assert("Heading(H4)"@[9] == '4');
    assert("Heading(H5)"@[9] == '5');
    assert("Heading(H6)"@[9] == '6');
    assert("Heading(H1)"@[0] == 'H' && "Heading(H2)"@[0] == 'H' && "Heading(H3)"@[0] == 'H'
        && "Heading(H4)"@[0] == 'H' && "Heading(H5)"@[0] == 'H' && "Heading(H6)"@[0] == 'H');
    assert("CodeBlock"@[0] == 'C' && "Paragraph"@[0] == 'P' && "Item"@[0] == 'I');
    assert("BlockQuote"@[0] == 'B' && "List"@[0] == 'L');
    assert("Strong"@[0] == 'S' && "Emphasis"@[0] == 'E' && "Strikethrough"@[0] == 'S');
    assert("Strong"@.len() == 6 && "Strikethrough"@.len() == 13);
}

/// Whether nothing has been read of the next block.
pub open spec fn nothing_pending(build: BuildView) -> bool {
    build.inline.len() == 0 && build.highlights.len() == 0 && build.heading is None
}

/// Every heading, of each of the six levels, is a block of its own with its level and its
/// text, and the document has it on a line of its own.
pub proof fn law_headings_are_blocks(build: BuildView, tag: Seq<char>, level: u8, text: Seq<char>)
    requires
        heading_tag(tag, level),
        text.len() > 0,
        nothing_pending(build),
    ensures
        ({
            let done = build.step(EventView::Start { tag }).step(EventView::Text { text }).step(
                EventView::End { tag },
            );
            &&& done.blocks.len() == build.blocks.len() + 1
            &&& done.blocks.drop_last() == build.blocks
            &&& done.blocks.last().kind == (BlockKind::Heading { level })
            &&& done.blocks.last().text == text
            &&& done.document == build.document + text + seq!['\n']
            &&& nothing_pending(done)
            &&& done.lists == build.lists && done.styles == build.styles && done.in_quote
                == build.in_quote && done.in_code == build.in_code
        }),
{
    lemma_tags_differ();
    let done = build.step(EventView::Start { tag }).step(EventView::Text { text }).step(
        EventView::End { tag },
    );
    assert(build.inline + text =~= text);
    assert(done.blocks.drop_last() =~= build.blocks);
    assert((build.document + text).push('\n') =~= build.document + text + seq!['\n']);
}

/// Every paragraph is a block of its own with its text: a plain one, or a quote within a
/// quote.
pub proof fn law_paragraphs_are_blocks(build: BuildView, text: Seq<char>)
    requires
        text.len() > 0,
        nothing_pending(build),
        !build.in_code,
    ensures
        ({
            let tag = "Paragraph"@;
            let done = build.step(EventView::Start { tag }).step(EventView::Text { text }).step(
                EventView::End { tag },
            );
            &&& done.blocks.drop_last() == build.blocks
            &&& done.blocks.last().text == text
            &&& done.blocks.last().kind == (if build.in_quote {
                BlockKind::Quote
            } else {
                BlockKind::Plain
            })
            &&& done.document == build.document + text + seq!['\n']
            &&& nothing_pending(done)
        }),
{
    lemma_tags_differ();
    reveal_strlit("Paragraph");
    reveal_strlit("Strong");
    reveal_strlit("Emphasis");
    reveal_strlit("Strikethrough");
    assert("Paragraph"@[0] == 'P' && "Strong"@[0] == 'S' && "Emphasis"@[0] == 'E'
        && "Strikethrough"@[0] == 'S');
    let tag = "Paragraph"@;
    let done = build.step(EventView::Start { tag }).step(EventView::Text { text }).step(
        EventView::End { tag },
    );
    assert(build.inline + text =~= text);
    assert(done.blocks.drop_last() =~= build.blocks);
    assert((build.document + text).push('\n') =~= build.document + text + seq!['\n']);
}

/// Code is a block of its own, apart from what stands before it and after it.
pub proof fn law_code_stands_apart(build: BuildView, text: Seq<char>)
    requires
        text.len() > 0,
    ensures
        ({
            let tag = "CodeBlock"@;
            let start = build.step(EventView::Start { tag });
            let done = start.step(EventView::Text { text }).step(EventView::End { tag });
            &&& start.inline.len() == 0
            &&& start.blocks == build.flushed().blocks
            &&& done.blocks.drop_last() == start.blocks
            &&& done.blocks.last().text == text
            &&& start.heading is None ==> done.blocks.last().kind == BlockKind::Code
            &&& done.inline.len() == 0
            &&& !done.in_code
        }),
{
    lemma_tags_differ();
    let tag = "CodeBlock"@;
    let start = build.step(EventView::Start { tag });
    let done = start.step(EventView::Text { text }).step(EventView::End { tag });
    assert(start.inline + text =~= text);
    assert(done.blocks.drop_last() =~= start.blocks);
}

/// A quote is one from where it starts to where it ends, whatever kind of quote it is.
pub proof fn law_quotes_are_what_stands_in_them(build: BuildView, kind: Seq<char>)
    requires
        level_of("BlockQuote"@ + kind) is None,
    ensures
        build.step(EventView::Start { tag: "BlockQuote"@ + kind }).in_quote,
        !build.step(EventView::End { tag: "BlockQuote"@ + kind }).in_quote,
        build.step(EventView::Start { tag: "BlockQuote"@ + kind }).inline == build.inline,
        build.step(EventView::End { tag: "BlockQuote"@ + kind }).blocks == build.blocks,
{
    let tag = "BlockQuote"@ + kind;
    reveal_strlit("BlockQuote");
    reveal_strlit("CodeBlock");
    reveal_strlit("Paragraph");
    reveal_strlit("Item");
    assert(tag[0] == 'B');
    assert("CodeBlock"@[0] == 'C' && "Paragraph"@[0] == 'P' && "Item"@[0] == 'I');
    assert("BlockQuote"@.is_prefix_of(tag)) by {
        assert(tag.subrange(0, "BlockQuote"@.len() as int) =~= "BlockQuote"@);
    }
}

/// An item of a numbered list starts with its number, which counts up from the first, and one
/// of any other list with a bullet.
pub proof fn law_items_are_numbered_in_order(build: BuildView, first: u64)
    requires
        build.inline.len() == 0,
        first < u64::MAX,
    ensures
        ({
            let item = EventView::Start { tag: "Item"@ };
            let numbered = build.step(EventView::List { start: Some(first) }).step(item);
            let next = numbered.step(EventView::End { tag: "Item"@ }).step(item);
            let bullet = build.step(EventView::List { start: None }).step(item);
            &&& numbered.inline == crate::number::written(first as int, 10) + ". "@
            &&& next.inline == crate::number::written(first + 1, 10) + ". "@
            &&& bullet.inline == "• "@
            &&& next.blocks.drop_last() == build.blocks
            &&& next.blocks.last().text == numbered.inline
        }),
{
    lemma_tags_differ();
    reveal_strlit(". ");
    let item = EventView::Start { tag: "Item"@ };
    let numbered = build.step(EventView::List { start: Some(first) }).step(item);
    let next = numbered.step(EventView::End { tag: "Item"@ }).step(item);
    let bullet = build.step(EventView::List { start: None }).step(item);
    assert(numbered.inline =~= crate::number::written(first as int, 10) + ". "@);
    assert(bullet.inline =~= "• "@);
    assert(next.inline =~= crate::number::written(first + 1, 10) + ". "@);
    assert(next.blocks.drop_last() =~= build.blocks);
}

/// A list that ends gives way to the one around it, and what stood in it stays.
pub proof fn law_lists_nest(build: BuildView, start: Option<u64>, kind: Seq<char>)
    requires
        level_of("List"@ + kind) is None,
    ensures
        build.step(EventView::List { start }).lists.drop_last() == build.lists,
        build.step(EventView::List { start }).lists.last() == start,
        build.step(EventView::List { start }).step(EventView::End { tag: "List"@ + kind }).lists
            == build.lists,
        build.step(EventView::List { start }).step(EventView::End { tag: "List"@ + kind }).inline
            == build.inline,
{
    let tag = "List"@ + kind;
    reveal_strlit("BlockQuote");
    reveal_strlit("CodeBlock");
    reveal_strlit("Paragraph");
    reveal_strlit("Item");
    reveal_strlit("List");
    assert(tag[0] == 'L');
    assert("CodeBlock"@[0] == 'C' && "Paragraph"@[0] == 'P' && "Item"@[0] == 'I'
        && "BlockQuote"@[0] == 'B');
    assert("List"@.is_prefix_of(tag)) by {
        assert(tag.subrange(0, "List"@.len() as int) =~= "List"@);
    }
    assert(build.step(EventView::List { start }).lists.drop_last() =~= build.lists);
}

/// Whether one of several styles is bold, and so on.
proof fn lemma_combined(styles: Seq<Style>, style: Style)
    ensures
        combined(styles.push(style)).bold == (combined(styles).bold || style.bold),
        combined(styles.push(style)).italic == (combined(styles).italic || style.italic),
        combined(styles.push(style)).struck == (combined(styles).struck || style.struck),
        combined(styles.push(style)).code == (combined(styles).code || style.code),
{
    assert(styles.push(style).drop_last() =~= styles);
}

/// Strong text is bold, emphasis is italic, and struck text is struck out, on top of every
/// style that is open already; when its tag ends, a style is gone and the others stay.
pub proof fn law_styles_nest(build: BuildView)
    ensures
        ({
            let before = combined(build.styles);
            let strong = build.step(EventView::Start { tag: "Strong"@ });
            let emphasis = build.step(EventView::Start { tag: "Emphasis"@ });
            let struck = build.step(EventView::Start { tag: "Strikethrough"@ });
            &&& combined(strong.styles) == (Style { bold: true, ..before })
            &&& combined(emphasis.styles) == (Style { italic: true, ..before })
            &&& combined(struck.styles) == (Style { struck: true, ..before })
            &&& strong.step(EventView::End { tag: "Strong"@ }).styles == build.styles
            &&& emphasis.step(EventView::End { tag: "Emphasis"@ }).styles == build.styles
            &&& struck.step(EventView::End { tag: "Strikethrough"@ }).styles == build.styles
            &&& strong.inline == build.inline && emphasis.inline == build.inline && struck.inline
                == build.inline
        }),
        combined(Seq::<Style>::empty()) == (Style {
            bold: false,
            italic: false,
            struck: false,
            code: false,
        }),
{
    lemma_tags_differ();
    lemma_combined(build.styles, Style { bold: true, ..plain() });
    lemma_combined(build.styles, Style { italic: true, ..plain() });
    lemma_combined(build.styles, Style { struck: true, ..plain() });
    assert(build.styles.push(Style { bold: true, ..plain() }).drop_last() =~= build.styles);
    assert(build.styles.push(Style { italic: true, ..plain() }).drop_last() =~= build.styles);
    assert(build.styles.push(Style { struck: true, ..plain() }).drop_last() =~= build.styles);
}

/// Every piece of text is put behind what the block holds already, all of it; where a style is
/// open, it is drawn in it from its first byte to its last.
pub proof fn law_text_is_added_in_its_style(build: BuildView, text: Seq<char>)
    requires
        crate::utf8::bytes(build.inline + text) <= usize::MAX,
    ensures
        ({
            let then = build.step(EventView::Text { text });
            let style = combined(build.styles);
            &&& then.inline == build.inline + text
            &&& then.blocks == build.blocks
            &&& style.bold || style.italic || style.struck || style.code ==> then.highlights
                == build.highlights.push(
                Highlight {
                    start: crate::utf8::bytes(build.inline) as usize,
                    end: crate::utf8::bytes(build.inline + text) as usize,
                    style,
                },
            )
            &&& !(style.bold || style.italic || style.struck || style.code) ==> then.highlights
                == build.highlights
        }),
{
    crate::utf8::lemma_bytes_concat(build.inline, text);
}

/// A piece of code within a text is put in as it is and drawn as code, and only as that.
pub proof fn law_inline_code_is_drawn_as_code(build: BuildView, text: Seq<char>)
    requires
        crate::utf8::bytes(build.inline + text) <= usize::MAX,
    ensures
        build.step(EventView::Code { text }).inline == build.inline + text,
        build.step(EventView::Code { text }).highlights == build.highlights.push(
            Highlight {
                start: crate::utf8::bytes(build.inline) as usize,
                end: crate::utf8::bytes(build.inline + text) as usize,
                style: Style { bold: false, italic: false, struck: false, code: true },
            },
        ),
{
    crate::utf8::lemma_bytes_concat(build.inline, text);
}

/// A soft break is a space, a hard one a line break, and what is not known leaves no trace.
pub proof fn law_breaks_are_kept(build: BuildView)
    ensures
        build.step(EventView::SoftBreak) == (BuildView {
            inline: build.inline + seq![' '],
            ..build
        }),
        build.step(EventView::HardBreak) == (BuildView {
            inline: build.inline + seq!['\n'],
            ..build
        }),
        build.step(EventView::Other) == build,
{
    assert(build.inline.push(' ') =~= build.inline + seq![' ']);
    assert(build.inline.push('\n') =~= build.inline + seq!['\n']);
}

/// What is left at the end is a block too, so that no text is lost.
pub proof fn law_nothing_is_left_behind(build: BuildView)
    ensures
        build.inline.len() > 0 ==> build.flushed().blocks.len() == build.blocks.len() + 1
            && build.flushed().blocks.last().text == build.inline
            && build.flushed().blocks.last().highlights == build.highlights,
        build.inline.len() == 0 ==> build.flushed() == build,
        build.flushed().inline.len() == 0,
        forall|i: int|
            0 <= i < build.blocks.len() ==> #[trigger] build.flushed().blocks[i] == build.blocks[i],
{
}

/// Events are read in order, each on top of those before it, from an empty document on.
pub proof fn law_events_are_read_in_order(events: Seq<EventView>, event: EventView)
    ensures
        read_events(events.push(event), events.len() as int + 1) == read_events(
            events,
            events.len() as int,
        ).step(event),
        read_events(events, 0).blocks.len() == 0 && read_events(events, 0).document.len() == 0
            && nothing_pending(read_events(events, 0)) && read_events(events, 0).styles.len() == 0
            && read_events(events, 0).lists.len() == 0 && !read_events(events, 0).in_code
            && !read_events(events, 0).in_quote,
{
    lemma_read_prefix(events, event, events.len() as int);
}

proof fn lemma_read_prefix(events: Seq<EventView>, event: EventView, n: int)
    requires
        n <= events.len(),
    ensures
        read_events(events.push(event), n) == read_events(events, n),
    decreases n,
{
    if n > 0 {
        lemma_read_prefix(events, event, n - 1);
    }
}

impl Selection {
    /// A selection reaches from its lower end to its higher one, whichever way it was dragged.
    pub proof fn law_selections_have_two_ends(self)
        ensures
            self.low() <= self.high(),
            (self.low() == self.start && self.high() == self.end) || (self.low() == self.end
                && self.high() == self.start),
    {
    }
}

/// What is copied is what stands between the two ends of the selection.
pub proof fn law_copied_text_is_what_is_selected(before: Seq<char>, part: Seq<char>, after: Seq<char>)
    ensures
        ({
            let document = before + part + after;
            let from = crate::utf8::bytes(before);
            let to = from + crate::utf8::bytes(part);
            &&& is_boundary(document, from)
            &&& is_boundary(document, to)
            &&& between(document, from, to) == part
        }),
{
    let document = before + part + after;
    let i = before.len() as int;
    let j = (before.len() + part.len()) as int;
    assert(document.take(i) =~= before);
    assert(document.take(j) =~= before + part);
    crate::utf8::lemma_bytes_concat(before, part);
    assert(crate::utf8::offset(document, i) == crate::utf8::bytes(before));
    assert(crate::utf8::offset(document, j) == crate::utf8::bytes(before) + crate::utf8::bytes(part));
    lemma_one_boundary(document, i, j);
    assert(document.subrange(i, j) =~= part);
}

proof fn lemma_offset_passes(
    y: int,
    blocks: Seq<PlacedBlock>,
    k: int,
    above: Option<(int, usize)>,
    i: int,
)
    requires
        0 <= k <= i < blocks.len(),
        forall|j: int| k <= j < blocks.len() ==> (#[trigger] blocks[j]).height > 0,
        forall|j: int|
            k <= j < i ==> (#[trigger] blocks[j]).top + blocks[j].height <= blocks[j + 1].top,
        above matches Some((bottom, _)) ==> bottom <= blocks[k].top,
        blocks[i].top <= y < blocks[i].top + blocks[i].height,
    ensures
        offset_from(y, blocks, k, above) == blocks[i].start + if blocks[i].index <= blocks[i].end
            - blocks[i].start {
            blocks[i].index as int
        } else {
            blocks[i].end - blocks[i].start
        },
    decreases i - k,
{
    if k < i {
        lemma_tops_grow(blocks, k, i);
        let block = blocks[k];
        lemma_offset_passes(
            y,
            blocks,
            k + 1,
            Some((block.top + block.height, block.end)),
            i,
        );
    }
}

proof fn lemma_tops_grow(blocks: Seq<PlacedBlock>, k: int, i: int)
    requires
        0 <= k < i < blocks.len(),
        forall|j: int|
            k <= j < i ==> (#[trigger] blocks[j]).top + blocks[j].height <= blocks[j + 1].top,
    ensures
        blocks[k].top + blocks[k].height <= blocks[i].top,
    decreases i - k,
{
    assert(blocks[k].top + blocks[k].height <= blocks[k + 1].top);
    if k + 1 < i {
        lemma_tops_grow(blocks, k + 1, i);
    }
}

/// A position within a block stands for the byte of it that is nearest to the mouse, counted
/// from where the block starts in the document, and never beyond its end.
pub proof fn law_positions_in_a_block(y: int, blocks: Seq<PlacedBlock>, i: int)
    requires
        0 <= i < blocks.len(),
        forall|j: int| 0 <= j < blocks.len() ==> (#[trigger] blocks[j]).height > 0,
        forall|j: int|
            0 <= j < i ==> (#[trigger] blocks[j]).top + blocks[j].height <= blocks[j + 1].top,
        blocks[i].top <= y < blocks[i].top + blocks[i].height,
        blocks[i].start <= blocks[i].end,
    ensures
        blocks[i].start <= offset_from(y, blocks, 0, None) <= blocks[i].end,
        blocks[i].start + blocks[i].index <= blocks[i].end ==> offset_from(y, blocks, 0, None)
            == blocks[i].start + blocks[i].index,
{
    lemma_offset_passes(y, blocks, 0, None, i);
}

} // verus!
