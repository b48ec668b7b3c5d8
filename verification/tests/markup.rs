use launch::markup::{decode_entity, strip_body_markup, strip_tag};

fn strip(body: &str) -> String {
    strip_body_markup(body.to_owned())
}

#[test]
fn decodes_entities() {
    assert_eq!(strip("Kaffee &amp; Kuchen"), "Kaffee & Kuchen");
    // Signal wraps names in bidi isolates, which have to survive untouched.
    assert_eq!(
        strip("\u{2068}Momo &lt;3\u{2069} reacted"),
        "\u{2068}Momo <3\u{2069} reacted"
    );
    assert_eq!(strip("a &gt; b &quot;c&quot; &apos;d&apos;"), "a > b \"c\" 'd'");
    assert_eq!(strip("Hilmar&#x27;s Buds"), "Hilmar's Buds");
    assert_eq!(strip("Hilmar&#39;s Buds"), "Hilmar's Buds");
}

#[test]
fn strips_the_specs_tags() {
    assert_eq!(strip("<b>Pixel Buds Pro</b> (24:29)"), "Pixel Buds Pro (24:29)");
    assert_eq!(strip("<i>a</i><u>b</u>"), "ab");
    assert_eq!(strip("see <a href=\"https://x.test\">this</a>"), "see this");
    assert_eq!(strip("<img src=\"a.png\" alt=\"a\"/>done"), "done");
    assert_eq!(strip("<B>upper</B>"), "upper");
}

/// Only the spec's tags are markup, so text that merely looks tag-ish stays.
#[test]
fn leaves_other_angle_brackets_alone() {
    assert_eq!(strip("i <3 you"), "i <3 you");
    assert_eq!(strip("<3> still text"), "<3> still text");
    assert_eq!(strip("use <div> for that"), "use <div> for that");
    assert_eq!(strip("a < b and b > c"), "a < b and b > c");
}

/// A bare `&` is ordinary text, and so is anything that isn't a known entity.
#[test]
fn leaves_other_ampersands_alone() {
    assert_eq!(strip("AT&T"), "AT&T");
    assert_eq!(strip("&nosuch; &#zz; &"), "&nosuch; &#zz; &");
    assert_eq!(strip("Q&A; later"), "Q&A; later");
}

/// Tags go before entities are decoded, so escaped markup survives as text
/// instead of being stripped on a second look.
#[test]
fn does_not_decode_into_markup() {
    assert_eq!(strip("&lt;b&gt;not bold&lt;/b&gt;"), "<b>not bold</b>");
    assert_eq!(strip("&amp;amp;"), "&amp;");
}

#[test]
fn leaves_plain_bodies_untouched() {
    assert_eq!(strip("Gruppenfotos starten um 16h"), "Gruppenfotos starten um 16h");
    assert_eq!(strip(""), "");
    assert_eq!(strip("line one\nline two"), "line one\nline two");
}

#[test]
fn the_longest_entity_is_decoded() {
    assert_eq!(strip("&#x10FFFF;"), "\u{10FFFF}");
    assert_eq!(strip("&#x110000;"), "&#x110000;");
    assert_eq!(strip("&#xD800;"), "&#xD800;");
    assert_eq!(strip("&#00000039;"), "&#00000039;");
}

#[test]
fn tags_and_entities_are_read_one_at_a_time() {
    assert_eq!(strip_tag("<b>x"), Some("x"));
    assert_eq!(strip_tag("<b"), None);
    assert_eq!(strip_tag("b>"), None);
    assert_eq!(decode_entity("&lt;3"), Some(('<', "3")));
    assert_eq!(decode_entity("&lt 3"), None);
    assert_eq!(decode_entity("lt;"), None);
}

#[test]
fn stripping_never_grows_a_body() {
    for body in ["", "<b>a</b>", "&amp;&lt;", "plain", "<<<", "&#x10FFFF;&#65;"] {
        assert!(strip(body).len() <= body.len(), "{body}");
    }
}
