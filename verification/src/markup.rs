//! The markup that a notification body may carry: a few tags, which are
//! dropped, and XML entities, which are decoded.

use vstd::prelude::*;

use crate::number::read_unsigned;
use crate::text::{char_of, chars_between, chars_of, find_from, lower, same, string_of, trim_end_of};

verus! {

broadcast use vstd::seq_lib::group_seq_properties;

/// The longest entity that is accepted, `&#x10FFFF;` without its delimiters.
/// Bounding the search keeps a lone `&`, as in `AT&T`, from dragging a scan
/// across the rest of the body looking for a `;`.
pub const MAX_ENTITY_LEN: usize = 8;

/// Whether a character ends a tag's name.
pub open spec fn ends_name(c: char) -> bool {
    c == ' ' || c == '\t' || c == '\n'
}

/// Where the first word of `s` at or after `from` ends.
pub open spec fn name_end(s: Seq<char>, from: int) -> int
    decreases s.len() - from,
{
    if from >= s.len() || ends_name(s[from]) {
        from
    } else {
        name_end(s, from + 1)
    }
}

/// The name in what stands between a tag's brackets: what comes before the first
/// break, once the slashes of a self-closing tag are off.
pub open spec fn tag_name(inside: Seq<char>) -> Seq<char> {
    let bare = crate::text::trimmed_end_of(inside, '/');
    bare.take(name_end(bare, 0))
}

/// Whether a name, in either case, is one of the tags that bodies may carry.
/// Nothing else is treated as a tag, so a body that merely happens to contain
/// something like `<3` keeps it.
pub open spec fn is_tag(name: Seq<char>) -> bool {
    let name = crate::text::lowered(name);
    ||| name == "b"@
    ||| name == "i"@
    ||| name == "u"@
    ||| name == "a"@
    ||| name == "img"@
}

/// How many characters the tag that `s` starts with takes, if it starts with one.
pub open spec fn tag_len(s: Seq<char>) -> Option<int> {
    if s.len() == 0 || s[0] != '<' {
        None
    } else {
        let open = if s.len() > 1 && s[1] == '/' {
            2int
        } else {
            1int
        };
        let end = crate::text::index_from(s, open, '>');
        if end < s.len() && is_tag(tag_name(s.subrange(open, end))) {
            Some(end + 1)
        } else {
            None
        }
    }
}

/// The character that an entity's name stands for.
pub open spec fn entity_char(name: Seq<char>) -> Option<char> {
    if name == "amp"@ {
        Some('&')
    } else if name == "lt"@ {
        Some('<')
    } else if name == "gt"@ {
        Some('>')
    } else if name == "quot"@ {
        Some('"')
    } else if name == "apos"@ {
        Some('\'')
    } else if name.len() > 0 && name[0] == '#' {
        let code = if name.len() > 1 && (name[1] == 'x' || name[1] == 'X') {
            crate::number::unsigned(name.skip(2), 16, u32::MAX as int)
        } else {
            crate::number::unsigned(name.skip(1), 10, u32::MAX as int)
        };
        match code {
            Some(code) => if crate::text::scalar(code) {
                Some(code as char)
            } else {
                None
            },
            None => None,
        }
    } else {
        None
    }
}

/// The character that the entity at the start of `s` stands for, and how many
/// characters the entity takes.
pub open spec fn entity(s: Seq<char>) -> Option<(char, int)> {
    if s.len() == 0 || s[0] != '&' {
        None
    } else {
        let end = crate::text::index_from(s, 1, ';');
        if end < s.len() && end - 1 <= MAX_ENTITY_LEN {
            match entity_char(s.subrange(1, end)) {
                Some(c) => Some((c, end + 1)),
                None => None,
            }
        } else {
            None
        }
    }
}

/// What is left of a body once its tags are dropped and its entities decoded,
/// each looked at once, from the left.
pub open spec fn stripped(s: Seq<char>) -> Seq<char>
    decreases s.len(),
{
    if s.len() == 0 {
        Seq::empty()
    } else {
        match (tag_len(s), entity(s)) {
            (Some(n), _) => if 0 < n <= s.len() {
                stripped(s.skip(n))
            } else {
                s
            },
            (None, Some((c, n))) => if 0 < n <= s.len() {
                seq![c] + stripped(s.skip(n))
            } else {
                s
            },
            (None, None) => seq![s[0]] + stripped(s.skip(1)),
        }
    }
}

/// A tag takes at least one character, and no more than there are.
pub proof fn lemma_tag_len(s: Seq<char>)
    ensures
        tag_len(s) matches Some(n) ==> 0 < n <= s.len(),
{
    if s.len() > 0 && s[0] == '<' {
        let open = if s.len() > 1 && s[1] == '/' {
            2int
        } else {
            1int
        };
        crate::text::lemma_index_from(s, open, '>');
    }
}

/// An entity takes at least one character, and no more than there are.
pub proof fn lemma_entity(s: Seq<char>)
    ensures
        entity(s) matches Some(e) ==> 0 < e.1 <= s.len(),
{
    if s.len() > 0 && s[0] == '&' {
        crate::text::lemma_index_from(s, 1, ';');
    }
}

/// Decides [`is_tag`].
fn known_tag(name: &Vec<char>, to: usize) -> (r: bool)
    requires
        to <= name@.len(),
    ensures
        r == is_tag(name@.take(to as int)),
{
    let mut low = String::new();
    for i in 0..to
        invariant
            to <= name@.len(),
            low@ == crate::text::lowered(name@.take(i as int)),
    {
        low.push(lower(name[i]));
        assert(crate::text::lowered(name@.take(i + 1)) == crate::text::lowered(
            name@.take(i as int),
        ).push(crate::text::ascii_lower(name@[i as int])));
    }
    same(&low, "b") || same(&low, "i") || same(&low, "u") || same(&low, "a") || same(&low, "img")
}

/// Where the tag that starts at `start` ends, if one starts there.
fn tag_at(v: &Vec<char>, start: usize) -> (r: Option<usize>)
    requires
        start < v@.len(),
    ensures
        match r {
            Some(end) => tag_len(v@.skip(start as int)) == Some(end - start) && start < end
                <= v@.len(),
            None => tag_len(v@.skip(start as int)) is None,
        },
{
    let ghost s = v@.skip(start as int);
    if v[start] != '<' {
        return None;
    }
    let open: usize = if v.len() - start > 1 && v[start + 1] == '/' {
        start + 2
    } else {
        start + 1
    };
    let end = find_from(v, open, '>');
    proof {
        crate::text::lemma_index_from_skip(v@, start as int, open - start, '>');
    }
    if end == v.len() {
        return None;
    }
    let inside = chars_between(v, open, end);
    assert(inside@ == s.subrange(open - start, end - start));
    let bare = trim_end_of(&inside, '/');
    let ghost b = inside@.take(bare as int);
    let mut to: usize = 0;
    while to < bare && inside[to] != ' ' && inside[to] != '\t' && inside[to] != '\n'
        invariant
            to <= bare <= inside@.len(),
            b == inside@.take(bare as int),
            name_end(b, 0) == name_end(b, to as int),
        decreases bare - to,
    {
        to = to + 1;
    }
    assert(b.take(to as int) == inside@.take(to as int));
    if known_tag(&inside, to) {
        Some(end + 1)
    } else {
        None
    }
}

/// Reads the character that an entity's name stands for; see [`entity_char`].
fn read_entity(name: &Vec<char>) -> (r: Option<char>)
    ensures
        r == entity_char(name@),
{
    let word = string_of(name);
    if same(&word, "amp") {
        Some('&')
    } else if same(&word, "lt") {
        Some('<')
    } else if same(&word, "gt") {
        Some('>')
    } else if same(&word, "quot") {
        Some('"')
    } else if same(&word, "apos") {
        Some('\'')
    } else if name.len() > 0 && name[0] == '#' {
        let code = if name.len() > 1 && (name[1] == 'x' || name[1] == 'X') {
            read_unsigned(name, 2, 16, 0xffff_ffff)
        } else {
            read_unsigned(name, 1, 10, 0xffff_ffff)
        };
        match code {
            Some(code) => char_of(code as u32),
            None => None,
        }
    } else {
        None
    }
}

/// The entity that starts at `start`, if one does, and where it ends.
fn entity_at(v: &Vec<char>, start: usize) -> (r: Option<(char, usize)>)
    requires
        start < v@.len(),
    ensures
        match r {
            Some((c, end)) => entity(v@.skip(start as int)) == Some((c, end - start)) && start
                < end <= v@.len(),
            None => entity(v@.skip(start as int)) is None,
        },
{
    let len: usize = v.len();
    assert(start < len);
    if v[start] != '&' {
        return None;
    }
    let end = find_from(v, start + 1, ';');
    proof {
        crate::text::lemma_index_from_skip(v@, start as int, 1, ';');
    }
    if end == v.len() || end - start - 1 > MAX_ENTITY_LEN {
        return None;
    }
    let name = chars_between(v, start + 1, end);
    assert(name@ == v@.skip(start as int).subrange(1, end - start));
    match read_entity(&name) {
        Some(c) => Some((c, end + 1)),
        None => None,
    }
}

/// Consumes one tag at the start of `text`, returning what follows it.
pub fn strip_tag(text: &str) -> (r: Option<&str>)
    ensures
        match r {
            Some(rest) => tag_len(text@) matches Some(n) && rest@ == text@.skip(n),
            None => tag_len(text@) is None,
        },
{
    let v = chars_of(text);
    if v.len() == 0 {
        return None;
    }
    assert(v@.skip(0) == v@);
    match tag_at(&v, 0) {
        Some(end) => Some(text.substring_char(end, v.len())),
        None => None,
    }
}

/// Decodes one XML entity at the start of `text`, returning the character it
/// stands for and what follows it.
pub fn decode_entity(text: &str) -> (r: Option<(char, &str)>)
    ensures
        match r {
            Some((c, rest)) => entity(text@) matches Some((d, n)) && c == d && rest@ == text@.skip(
                n,
            ),
            None => entity(text@) is None,
        },
{
    let v = chars_of(text);
    if v.len() == 0 {
        return None;
    }
    assert(v@.skip(0) == v@);
    match entity_at(&v, 0) {
        Some((c, end)) => Some((c, text.substring_char(end, v.len()))),
        None => None,
    }
}

/// Removes the markup that a notification body may carry and resolves the XML
/// entities that come with it.
///
/// Senders escape their text: `Kaffee &amp; Kuchen`, `<b>Hilmar&#x27;s Pixel
/// Buds Pro</b>`. Filtering the tags without also decoding the entities is what
/// leaves a literal `&gt;` on screen. Every character is looked at once, so an
/// escaped `&lt;b&gt;` ends up as literal text rather than being mistaken for
/// markup on a second pass.
pub fn strip_body_markup(body: String) -> (r: String)
    ensures
        r@ == stripped(body@),
{
    let v = chars_of(&body);
    let mut out = String::new();
    let mut at: usize = 0;
    assert(v@.skip(0) == v@);
    while at < v.len()
        invariant
            at <= v@.len(),
            v@ == body@,
            out@ + stripped(v@.skip(at as int)) == stripped(body@),
        decreases v@.len() - at,
    {
        let ghost s = v@.skip(at as int);
        match tag_at(&v, at) {
            Some(end) => {
                assert(s.skip(end - at) == v@.skip(end as int));
                at = end;
            },
            None => match entity_at(&v, at) {
                Some((c, end)) => {
                    assert(s.skip(end - at) == v@.skip(end as int));
                    assert(out@.push(c) + stripped(s.skip(end - at)) == out@ + (seq![c] + stripped(
                        s.skip(end - at),
                    )));
                    out.push(c);
                    at = end;
                },
                None => {
                    assert(s.skip(1) == v@.skip(at + 1));
                    assert(out@.push(s[0]) + stripped(s.skip(1)) == out@ + (seq![s[0]] + stripped(
                        s.skip(1),
                    )));
                    out.push(v[at]);
                    at = at + 1;
                },
            },
        }
    }
    assert(stripped(v@.skip(at as int)) == Seq::<char>::empty());
    out
}

/// A text with its markup characters escaped, the way that senders escape it.
pub open spec fn escaped(s: Seq<char>) -> Seq<char>
    decreases s.len(),
{
    if s.len() == 0 {
        Seq::empty()
    } else {
        escape(s[0]) + escaped(s.skip(1))
    }
}

/// The escaped form of one character.
pub open spec fn escape(c: char) -> Seq<char> {
    if c == '&' {
        "&amp;"@
    } else if c == '<' {
        "&lt;"@
    } else if c == '>' {
        "&gt;"@
    } else {
        seq![c]
    }
}

/// A body without a `<` or a `&` is left as it is.
pub proof fn law_plain_bodies_are_untouched(s: Seq<char>)
    requires
        !s.contains('<'),
        !s.contains('&'),
    ensures
        stripped(s) == s,
    decreases s.len(),
{
    if s.len() > 0 {
        assert(s[0] != '<' && s[0] != '&');
        assert forall|c: char| s.skip(1).contains(c) implies s.contains(c) by {
            let i = choose|i: int| 0 <= i < s.skip(1).len() && s.skip(1)[i] == c;
            assert(s[i + 1] == c);
        }
        law_plain_bodies_are_untouched(s.skip(1));
        assert(seq![s[0]] + s.skip(1) == s);
    }
}

/// Whatever text a sender escapes comes out as that text: escaped markup never
/// turns into markup.
pub proof fn law_escaped_text_survives(s: Seq<char>)
    ensures
        stripped(escaped(s)) == s,
    decreases s.len(),
{
    if s.len() > 0 {
        let c = s[0];
        let rest = escaped(s.skip(1));
        law_escaped_text_survives(s.skip(1));
        let e = escape(c) + rest;
        assert(seq![c] + s.skip(1) == s);
        if c == '&' || c == '<' || c == '>' {
            reveal_strlit("&amp;");
            reveal_strlit("&lt;");
            reveal_strlit("&gt;");
            reveal_strlit("amp");
            reveal_strlit("lt");
            reveal_strlit("gt");
            let n = escape(c).len() as int;
            crate::text::lemma_index_from_is(e, 1, ';', n - 1);
            assert(e.skip(n) == rest);
            let name = e.subrange(1, n - 1);
            assert(e[0] == '&' && e[n - 1] == ';');
            assert(name == escape(c).subrange(1, n - 1));
            if c == '&' {
                assert(name == "amp"@);
            } else if c == '<' {
                assert(name == "lt"@);
            } else {
                assert(name == "gt"@);
                assert(name[0] == 'g' && "lt"@[0] == 'l');
            }
            assert(entity_char(name) == Some(c));
            assert(entity(e) == Some((c, n)));
        } else {
            assert(e.skip(1) == rest);
            assert(tag_len(e) is None);
            assert(entity(e) is None);
        }
    }
}

/// Stripping never makes a body longer.
pub proof fn law_stripping_never_grows(s: Seq<char>)
    ensures
        stripped(s).len() <= s.len(),
    decreases s.len(),
{
    if s.len() > 0 {
        lemma_tag_len(s);
        lemma_entity(s);
        match (tag_len(s), entity(s)) {
            (Some(n), _) => law_stripping_never_grows(s.skip(n)),
            (None, Some((c, n))) => law_stripping_never_grows(s.skip(n)),
            (None, None) => law_stripping_never_grows(s.skip(1)),
        }
    }
}

/// A tag at the front of a body leaves no trace: what follows is read as if the
/// body began there.
pub proof fn law_tags_leave_no_trace(s: Seq<char>)
    requires
        tag_len(s) is Some,
    ensures
        stripped(s) == stripped(s.skip(tag_len(s)->0)),
{
    lemma_tag_len(s);
}

/// The tags that a body may have are the five that a server has to know, in small letters or
/// in capitals.
pub proof fn law_the_known_tags(name: Seq<char>)
    ensures
        is_tag(name) <==> (crate::text::lowered(name) == "b"@ || crate::text::lowered(name) == "i"@
            || crate::text::lowered(name) == "u"@ || crate::text::lowered(name) == "a"@
            || crate::text::lowered(name) == "img"@),
{
}

proof fn lemma_name_end(s: Seq<char>, from: int, at: int)
    requires
        0 <= from <= at <= s.len(),
        at == s.len() || ends_name(s[at]),
        forall|i: int| from <= i < at ==> !ends_name(#[trigger] s[i]),
    ensures
        name_end(s, from) == at,
    decreases at - from,
{
    if from < at {
        assert(!ends_name(s[from]));
        lemma_name_end(s, from + 1, at);
    }
}

proof fn lemma_tag(open: Seq<char>, name: Seq<char>, rest: Seq<char>, after: Seq<char>)
    requires
        open == seq!['<'] || open == seq!['<', '/'],
        name.len() > 0,
        name[0] != '/',
        name.last() != '/',
        forall|i: int| 0 <= i < name.len() ==> !ends_name(#[trigger] name[i]) && name[i] != '>',
        !rest.contains('>'),
        rest.len() == 0 || (ends_name(rest[0]) && rest.last() != '/'),
    ensures
        tag_len(open + name + rest + seq!['>'] + after) == (if is_tag(name) {
            Some((open.len() + name.len() + rest.len() + 1) as int)
        } else {
            None
        }),
{
    let s = open + name + rest + seq!['>'] + after;
    let from = open.len() as int;
    let end = (open.len() + name.len() + rest.len()) as int;
    let inside = name + rest;
    assert(s[0] == '<');
    if from == 1 {
        assert(s[1] == name[0]);
    } else {
        assert(s[1] == '/');
    }
    assert forall|i: int| from <= i < end implies s[i] != '>' by {
        if i < from + name.len() {
            assert(s[i] == name[i - from]);
        } else {
            assert(s[i] == rest[i - from - name.len()]);
            assert(rest.contains(rest[i - from - name.len()]));
        }
    }
    assert(s[end] == '>');
    crate::text::lemma_index_from_is(s, from, '>', end);
    assert(s.subrange(from, end) =~= inside);
    assert(inside.last() != '/');
    assert(crate::text::trimmed_end_of(inside, '/') == inside);
    assert forall|i: int| 0 <= i < name.len() implies !ends_name(#[trigger] inside[i]) by {
        assert(inside[i] == name[i]);
    }
    if rest.len() > 0 {
        assert(inside[name.len() as int] == rest[0]);
    }
    lemma_name_end(inside, 0, name.len() as int);
    assert(inside.take(name.len() as int) =~= name);
}

/// A tag of a known name goes, whether it opens or closes and whatever attributes it has, and
/// what stands behind it is read on; one of another name stays.
pub proof fn law_known_tags_go_and_others_stay(
    closing: bool,
    name: Seq<char>,
    attributes: Seq<char>,
    after: Seq<char>,
)
    requires
        name.len() > 0,
        name[0] != '/',
        name.last() != '/',
        forall|i: int| 0 <= i < name.len() ==> !ends_name(#[trigger] name[i]) && name[i] != '>',
        !attributes.contains('>'),
        attributes.len() == 0 || (attributes[0] == ' ' && attributes.last() != '/'),
    ensures
        ({
            let open = if closing {
                seq!['<', '/']
            } else {
                seq!['<']
            };
            let s = open + name + attributes + seq!['>'] + after;
            &&& is_tag(name) ==> stripped(s) == stripped(after)
            &&& !is_tag(name) ==> stripped(s) == seq!['<'] + stripped(s.skip(1))
        }),
{
    let open = if closing {
        seq!['<', '/']
    } else {
        seq!['<']
    };
    let s = open + name + attributes + seq!['>'] + after;
    lemma_tag(open, name, attributes, after);
    let n = (open.len() + name.len() + attributes.len() + 1) as int;
    assert(s.skip(n) =~= after);
    assert(s[0] == '<');
}

proof fn lemma_entity_read(name: Seq<char>, after: Seq<char>)
    requires
        name.len() > 0,
        name.len() <= 8,
        !name.contains(';'),
        entity_char(name) is Some,
    ensures
        stripped(seq!['&'] + name + seq![';'] + after) == seq![entity_char(name)->0] + stripped(
            after,
        ),
{
    let s = seq!['&'] + name + seq![';'] + after;
    let end = (1 + name.len()) as int;
    assert(s[0] == '&');
    assert forall|i: int| 1 <= i < end implies s[i] != ';' by {
        assert(s[i] == name[i - 1]);
        assert(name.contains(name[i - 1]));
    }
    assert(s[end] == ';');
    crate::text::lemma_index_from_is(s, 1, ';', end);
    assert(s.subrange(1, end) =~= name);
    assert(s.skip(end + 1) =~= after);
}

/// The entities that every reader knows stand for their characters, wherever they are.
pub proof fn law_named_entities_are_decoded(after: Seq<char>)
    ensures
        stripped("&amp;"@ + after) == seq!['&'] + stripped(after),
        stripped("&lt;"@ + after) == seq!['<'] + stripped(after),
        stripped("&gt;"@ + after) == seq!['>'] + stripped(after),
        stripped("&quot;"@ + after) == seq!['"'] + stripped(after),
        stripped("&apos;"@ + after) == seq!['\''] + stripped(after),
{
    reveal_strlit("&amp;");
    reveal_strlit("&lt;");
    reveal_strlit("&gt;");
    reveal_strlit("&quot;");
    reveal_strlit("&apos;");
    reveal_strlit("amp");
    reveal_strlit("lt");
    reveal_strlit("gt");
    reveal_strlit("quot");
    reveal_strlit("apos");
    assert("&amp;"@ + after =~= seq!['&'] + "amp"@ + seq![';'] + after);
    assert("&lt;"@ + after =~= seq!['&'] + "lt"@ + seq![';'] + after);
    assert("&gt;"@ + after =~= seq!['&'] + "gt"@ + seq![';'] + after);
    assert("&quot;"@ + after =~= seq!['&'] + "quot"@ + seq![';'] + after);
    assert("&apos;"@ + after =~= seq!['&'] + "apos"@ + seq![';'] + after);
    assert("amp"@.len() == 3 && "lt"@.len() == 2 && "gt"@.len() == 2 && "quot"@.len() == 4
        && "apos"@.len() == 4);
    assert("lt"@[0] == 'l' && "gt"@[0] == 'g' && "quot"@[0] == 'q' && "apos"@[0] == 'a');
    lemma_entity_read("amp"@, after);
    lemma_entity_read("lt"@, after);
    lemma_entity_read("gt"@, after);
    lemma_entity_read("quot"@, after);
    lemma_entity_read("apos"@, after);
}

proof fn lemma_no_named_entity(name: Seq<char>)
    requires
        name.len() > 0,
        name[0] == '#',
    ensures
        name != "amp"@,
        name != "lt"@,
        name != "gt"@,
        name != "quot"@,
        name != "apos"@,
{
    reveal_strlit("amp");
    reveal_strlit("lt");
    reveal_strlit("gt");
    reveal_strlit("quot");
    reveal_strlit("apos");
    assert("amp"@[0] == 'a' && "lt"@[0] == 'l' && "gt"@[0] == 'g' && "quot"@[0] == 'q'
        && "apos"@[0] == 'a');
}

/// A number in tens stands for the character that has it, as long as it is a character at all
/// and is written in as few digits as an entity may have.
pub proof fn law_numbers_in_tens_are_decoded(code: int, after: Seq<char>)
    requires
        crate::text::scalar(code),
        crate::number::written(code, 10).len() <= 7,
    ensures
        stripped(seq!['&'] + (seq!['#'] + crate::number::written(code, 10)) + seq![';'] + after)
            == seq![code as char] + stripped(after),
{
    let digits = crate::number::written(code, 10);
    let name = seq!['#'] + digits;
    crate::number::law_numbers_up_to_the_largest_are_read(code, 10, u32::MAX as int);
    crate::number::law_written_reads_back(code, 10);
    lemma_digits_only(code, 10);
    lemma_no_named_entity(name);
    assert(name.skip(1) =~= digits);
    assert(name[1] == digits[0]);
    assert(digits.contains(digits[0]));
    assert(entity_char(name) == Some(code as char));
    assert forall|i: int| 0 <= i < name.len() implies name[i] != ';' by {
        if i > 0 {
            assert(digits.contains(digits[i - 1]));
        }
    }
    lemma_entity_read(name, after);
}

/// A number in sixteens, behind an `x`, stands for the character that has it likewise.
pub proof fn law_numbers_in_sixteens_are_decoded(code: int, x: char, after: Seq<char>)
    requires
        crate::text::scalar(code),
        x == 'x' || x == 'X',
        crate::number::written(code, 16).len() <= 6,
    ensures
        stripped(
            seq!['&'] + (seq!['#', x] + crate::number::written(code, 16)) + seq![';'] + after,
        ) == seq![code as char] + stripped(after),
{
    let digits = crate::number::written(code, 16);
    let name = seq!['#', x] + digits;
    crate::number::law_numbers_up_to_the_largest_are_read(code, 16, u32::MAX as int);
    crate::number::law_written_reads_back(code, 16);
    lemma_digits_only(code, 16);
    lemma_no_named_entity(name);
    assert(name.skip(2) =~= digits);
    assert(entity_char(name) == Some(code as char));
    assert forall|i: int| 0 <= i < name.len() implies name[i] != ';' by {
        if i > 1 {
            assert(digits.contains(digits[i - 2]));
        }
    }
    lemma_entity_read(name, after);
}

proof fn lemma_digits_only(n: int, radix: int)
    requires
        0 <= n,
        2 <= radix <= 16,
    ensures
        !crate::number::written(n, radix).contains(';'),
        !crate::number::written(n, radix).contains('x'),
        !crate::number::written(n, radix).contains('X'),
    decreases n,
{
    let w = crate::number::written(n, radix);
    if n >= radix {
        assert(0 <= n / radix < n) by (nonlinear_arith)
            requires
                n >= radix,
                radix >= 2,
        ;
        lemma_digits_only(n / radix, radix);
        let init = crate::number::written(n / radix, radix);
        assert forall|i: int| 0 <= i < w.len() implies w[i] != ';' && w[i] != 'x' && w[i] != 'X' by {
            if i < init.len() {
                assert(init.contains(init[i]));
            } else {
                assert(0 <= n % radix < radix) by (nonlinear_arith)
                    requires
                        radix >= 2,
                ;
            }
        }
    }
}

/// Nothing that is longer than an entity may be is taken for one.
pub proof fn law_long_names_are_no_entities(name: Seq<char>, after: Seq<char>)
    requires
        name.len() > 8,
        !name.contains(';'),
    ensures
        entity(seq!['&'] + name + seq![';'] + after) is None,
{
    let s = seq!['&'] + name + seq![';'] + after;
    let end = (1 + name.len()) as int;
    assert forall|i: int| 1 <= i < end implies s[i] != ';' by {
        assert(s[i] == name[i - 1]);
        assert(name.contains(name[i - 1]));
    }
    assert(s[end] == ';');
    crate::text::lemma_index_from_is(s, 1, ';', end);
}

} // verus!
