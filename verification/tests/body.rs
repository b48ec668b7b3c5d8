use launch::body::{is_flat, single_line, single_line_body, Body, BodyBuilder, Emphasis};

const NONE: Emphasis = Emphasis { bold: false, italic: false, underline: false };
const BOLD: Emphasis = Emphasis { bold: true, italic: false, underline: false };
const UNDERLINE: Emphasis = Emphasis { bold: false, italic: false, underline: true };

fn body(chunks: &[(&str, Emphasis)]) -> Body {
    let mut builder = BodyBuilder::default();
    for (chunk, emphasis) in chunks {
        builder.push(chunk, *emphasis);
    }
    builder.build()
}

/// Each emphasized stretch as `(text, emphasis)`, in order.
fn spans(body: &Body) -> Vec<(String, Emphasis)> {
    body.spans
        .iter()
        .map(|span| (body.text[span.range.clone()].to_owned(), span.emphasis))
        .collect()
}

#[test]
fn flattens_a_body_and_carries_its_emphasis() {
    let flattened = single_line_body(&body(&[("line one\nline ", NONE), ("two", BOLD)]));
    assert_eq!(flattened.text, "line one line two");
    assert_eq!(spans(&flattened), [("two".to_owned(), BOLD)]);
}

/// Whitespace inside a span collapses along with the rest but keeps its
/// emphasis, so an underline isn't broken at every space it spans.
#[test]
fn keeps_spans_contiguous_across_collapsed_whitespace() {
    let flattened = single_line_body(&body(&[("a\n\n  b", UNDERLINE)]));
    assert_eq!(flattened.text, "a b");
    assert_eq!(spans(&flattened), [("a b".to_owned(), UNDERLINE)]);
}

#[test]
fn drops_edge_whitespace_and_the_spans_over_it() {
    let flattened = single_line_body(&body(&[("  ", NONE), ("bold", BOLD), (" \n ", BOLD)]));
    assert_eq!(flattened.text, "bold");
    assert_eq!(spans(&flattened), [("bold".to_owned(), BOLD)]);
}

#[test]
fn leaves_flat_bodies_alone() {
    let flattened = single_line_body(&body(&[("already flat ", NONE), ("here", BOLD)]));
    assert_eq!(flattened.text, "already flat here");
    assert_eq!(spans(&flattened), [("here".to_owned(), BOLD)]);
}

#[test]
fn adjacent_chunks_of_one_emphasis_share_a_span() {
    let built = body(&[("a", BOLD), ("b", BOLD), ("c", NONE), ("d", BOLD)]);
    assert_eq!(built.text, "abcd");
    assert_eq!(spans(&built), [("ab".to_owned(), BOLD), ("d".to_owned(), BOLD)]);
}

#[test]
fn flattening_texts_and_bodies_agrees() {
    for text in ["", " ", "a", " a ", "a\tb", "a \u{a0}\n b", "é\n\né"] {
        let flat = single_line(&text.to_owned());
        assert!(is_flat(&flat), "{text:?}");
        assert_eq!(single_line(&flat), flat);
        assert_eq!(single_line_body(&Body::plain(text.to_owned())).text, flat);
    }
    assert_eq!(single_line(&"  one\n\ttwo  ".to_owned()), "one two");
    assert!(Body::plain(String::new()).is_empty());
    assert!(!is_flat("a  b"));
    assert!(!is_flat("a "));
}
