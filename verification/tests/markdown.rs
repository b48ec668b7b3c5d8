use launch::markdown::{
    build_document, build_markdown, copied, heading_size, offset_for_position, selected_part,
    BlockKind, Highlight, MarkdownEvent, PlacedBlock, Selection, Style,
};

const PLAIN: Style = Style { bold: false, italic: false, struck: false, code: false };

fn texts(source: &str) -> Vec<String> {
    build_markdown(source).blocks.iter().map(|b| b.text.clone()).collect()
}

#[test]
fn blocks_take_lines_of_their_own() {
    let document = build_markdown("# Title\n\nOne *two*\nthree\n\n> quoted\n\n```\ncode\n```\n");
    let kinds: Vec<BlockKind> = document.blocks.iter().map(|b| b.kind).collect();
    assert_eq!(kinds, vec![BlockKind::Heading { level: 1 }, BlockKind::Plain, BlockKind::Quote, BlockKind::Code]);
    assert_eq!(document.document_text, "Title\nOne two three\nquoted\ncode\n\n");
    for block in &document.blocks {
        assert_eq!(&document.document_text[block.start..block.end], block.text);
    }
    assert_eq!(
        document.blocks[1].highlights,
        vec![Highlight { start: 4, end: 7, style: Style { italic: true, ..PLAIN } }]
    );
}

#[test]
fn styles_combine() {
    let document = build_markdown("a **b *c*** ~~d~~ `e`");
    assert_eq!(document.blocks[0].text, "a b c d e");
    assert_eq!(
        document.blocks[0].highlights,
        vec![
            Highlight { start: 2, end: 4, style: Style { bold: true, ..PLAIN } },
            Highlight { start: 4, end: 5, style: Style { bold: true, italic: true, ..PLAIN } },
            Highlight { start: 6, end: 7, style: Style { struck: true, ..PLAIN } },
            Highlight { start: 8, end: 9, style: Style { code: true, ..PLAIN } },
        ]
    );
}

#[test]
fn items_are_numbered_or_bulleted() {
    assert_eq!(texts("3. one\n4. two\n"), vec!["3. one", "4. two"]);
    assert_eq!(texts("- one\n- two\n"), vec!["• one", "• two"]);
    assert_eq!(texts("line  \nbreak"), vec!["line\nbreak"]);
    assert!(texts("").is_empty());
}

#[test]
fn events_are_enough() {
    let event = |tag: &str| tag.to_string();
    let document = build_document(&vec![
        MarkdownEvent::List { start: None },
        MarkdownEvent::Start { tag: event("Item") },
        MarkdownEvent::Text { text: "x".to_string() },
        MarkdownEvent::SoftBreak,
        MarkdownEvent::Code { text: "y".to_string() },
        MarkdownEvent::HardBreak,
        MarkdownEvent::Other,
        MarkdownEvent::End { tag: event("Item") },
    ]);
    assert_eq!(document.document_text, "• x y\n\n");
}

#[test]
fn headings_shrink() {
    assert_eq!((1..=6).map(heading_size).collect::<Vec<_>>(), vec![24, 20, 18, 16, 16, 16]);
}

#[test]
fn selections_can_be_dragged_either_way() {
    let mut selection = Selection::new();
    assert_eq!(copied("hello", &selection), None);
    selection.press(4);
    selection.drag(1);
    assert_eq!(selection.range(), (1, 4));
    assert_eq!(copied("hello", &selection).as_deref(), Some("ell"));
    assert_eq!(selected_part(&selection, 2, 9), Some((0, 2)));
    assert_eq!(selected_part(&selection, 4, 9), None);
    assert_eq!(selected_part(&selection, 0, 3), Some((1, 3)));
    selection.release();
    selection.drag(0);
    assert_eq!(selection.range(), (1, 4));
    assert_eq!(copied("hel", &selection), None);
}

#[test]
fn positions_snap_to_the_closer_block() {
    let block = |top: i32, height: u32, start: usize, end: usize, index: usize| PlacedBlock {
        top,
        height,
        start,
        end,
        index,
    };
    let blocks = vec![block(0, 10, 0, 5, 3), block(10, 0, 6, 6, 0), block(20, 10, 7, 9, 99)];
    assert_eq!(offset_for_position(4, &blocks), 3);
    assert_eq!(offset_for_position(12, &blocks), 5);
    assert_eq!(offset_for_position(15, &blocks), 7);
    assert_eq!(offset_for_position(25, &blocks), 9);
    assert_eq!(offset_for_position(99, &blocks), 9);
    assert_eq!(offset_for_position(-3, &blocks), 9);
    assert_eq!(offset_for_position(0, &Vec::new()), 0);
}
