//! C-style escaping, as the helper that talks to PAM applies it to the text of
//! its messages, and its reversal.

use vstd::prelude::*;

use crate::text::{char_of, chars_of};

verus! {

/// Whether a character is an octal digit.
pub open spec fn octal_digit(c: char) -> bool {
    '0' <= c <= '7'
}

/// The value of an octal digit.
pub open spec fn octal_value(c: char) -> int {
    c as int - '0' as int
}

/// How many octal digits, three at most, `s` has from `from` on.
pub open spec fn octal_len(s: Seq<char>, from: int) -> int {
    if from >= s.len() || !octal_digit(s[from]) {
        0
    } else if from + 1 >= s.len() || !octal_digit(s[from + 1]) {
        1
    } else if from + 2 >= s.len() || !octal_digit(s[from + 2]) {
        2
    } else {
        3
    }
}

/// The number that the octal digits from `from` on write.
pub open spec fn octal_number(s: Seq<char>, from: int) -> int {
    let n = octal_len(s, from);
    if n == 1 {
        octal_value(s[from])
    } else if n == 2 {
        octal_value(s[from]) * 8 + octal_value(s[from + 1])
    } else {
        octal_value(s[from]) * 64 + octal_value(s[from + 1]) * 8 + octal_value(s[from + 2])
    }
}

/// Whether an octal escape starts at `from`.
pub open spec fn octal_at(s: Seq<char>, from: int) -> bool {
    from + 1 < s.len() && s[from] == '\\' && octal_digit(s[from + 1])
}

/// The numbers of the octal escapes that follow one another from `from` on.
pub open spec fn octal_run(s: Seq<char>, from: int) -> Seq<int>
    decreases s.len() - from,
{
    if 0 <= from && octal_at(s, from) {
        seq![octal_number(s, from + 1)] + octal_run(s, from + 1 + octal_len(s, from + 1))
    } else {
        Seq::empty()
    }
}

/// Where the octal escapes that follow one another from `from` on end.
pub open spec fn octal_run_end(s: Seq<char>, from: int) -> int
    decreases s.len() - from,
{
    if 0 <= from && octal_at(s, from) {
        octal_run_end(s, from + 1 + octal_len(s, from + 1))
    } else {
        from
    }
}

/// Numbers as bytes.
pub open spec fn as_bytes(numbers: Seq<int>) -> Seq<u8> {
    numbers.map_values(|n: int| n as u8)
}

/// Numbers as the characters with those scalar values.
pub open spec fn as_chars(numbers: Seq<int>) -> Seq<char> {
    numbers.map_values(|n: int| n as char)
}

/// Whether numbers are the UTF-8 form of some text. Text is escaped byte by byte,
/// so a character outside ASCII arrives as several escapes.
pub open spec fn is_utf8(numbers: Seq<int>) -> bool {
    &&& forall|i: int| 0 <= i < numbers.len() ==> 0 <= #[trigger] numbers[i] < 256
    &&& vstd::utf8::valid_utf8(as_bytes(numbers))
}

/// The text that a run of octal escapes stands for: the text whose bytes they
/// are, or, where they are no text's, one character for each.
pub open spec fn octal_text(numbers: Seq<int>) -> Seq<char> {
    if is_utf8(numbers) {
        vstd::utf8::decode_utf8(as_bytes(numbers))
    } else {
        as_chars(numbers)
    }
}

/// The character that a letter stands for behind a backslash.
pub open spec fn simple(c: char) -> char {
    if c == 'n' {
        '\n'
    } else if c == 'r' {
        '\r'
    } else if c == 't' {
        '\t'
    } else if c == 'b' {
        '\u{8}'
    } else if c == 'f' {
        '\u{c}'
    } else if c == 'v' {
        '\u{b}'
    } else {
        c
    }
}

/// A text with its escaping reversed, from `from` on.
pub open spec fn unescaped_from(s: Seq<char>, from: int) -> Seq<char>
    decreases s.len() - from,
{
    if from < 0 || from >= s.len() {
        Seq::empty()
    } else if s[from] != '\\' {
        seq![s[from]] + unescaped_from(s, from + 1)
    } else if from + 1 == s.len() {
        seq!['\\']
    } else if octal_digit(s[from + 1]) {
        if from < octal_run_end(s, from) <= s.len() {
            octal_text(octal_run(s, from)) + unescaped_from(s, octal_run_end(s, from))
        } else {
            Seq::empty()
        }
    } else {
        seq![simple(s[from + 1])] + unescaped_from(s, from + 2)
    }
}

/// A text with its escaping reversed.
pub open spec fn unescaped(s: Seq<char>) -> Seq<char> {
    unescaped_from(s, 0)
}

/// A run of octal escapes ends after it starts, and inside the text.
pub proof fn lemma_run_end(s: Seq<char>, from: int)
    requires
        0 <= from <= s.len(),
    ensures
        from <= octal_run_end(s, from) <= s.len(),
        octal_at(s, from) ==> from + 2 <= octal_run_end(s, from),
    decreases s.len() - from,
{
    if octal_at(s, from) {
        lemma_run_end(s, from + 1 + octal_len(s, from + 1));
    }
}

/// An octal escape's number has nine bits.
proof fn lemma_octal_number(s: Seq<char>, from: int)
    requires
        0 <= from < s.len(),
        octal_digit(s[from]),
    ensures
        0 <= octal_number(s, from) < 512,
        1 <= octal_len(s, from) <= 3,
        from + octal_len(s, from) <= s.len(),
{
}

/// The numbers of a run all have nine bits.
proof fn lemma_octal_run(s: Seq<char>, from: int)
    ensures
        forall|i: int| 0 <= i < octal_run(s, from).len() ==> 0 <= #[trigger] octal_run(s, from)[i]
            < 512,
    decreases s.len() - from,
{
    if 0 <= from && octal_at(s, from) {
        let next = from + 1 + octal_len(s, from + 1);
        lemma_octal_number(s, from + 1);
        lemma_octal_run(s, next);
        assert forall|i: int| 0 <= i < octal_run(s, from).len() implies 0 <= #[trigger] octal_run(
            s,
            from,
        )[i] < 512 by {
            if i > 0 {
                assert(octal_run(s, from)[i] == octal_run(s, next)[i - 1]);
            }
        }
    }
}

/// `String::from_utf8` gives the text that bytes are the UTF-8 form of, or
/// nothing where they are no text's.
#[verifier::external_body]
fn text_of_bytes(bytes: Vec<u8>) -> (r: Option<String>)
    ensures
        match r {
            Some(text) => vstd::utf8::valid_utf8(bytes@) && text@ == vstd::utf8::decode_utf8(
                bytes@,
            ),
            None => !vstd::utf8::valid_utf8(bytes@),
        },
{
    String::from_utf8(bytes).ok()
}

/// Reads the octal digits from `from` on; gives back the number and where they
/// end.
fn read_octal(v: &Vec<char>, from: usize) -> (r: (u32, usize))
    requires
        from < v@.len(),
        octal_digit(v@[from as int]),
    ensures
        r.0 == octal_number(v@, from as int),
        r.1 == from + octal_len(v@, from as int),
        r.0 < 512,
        from < r.1 <= v@.len(),
{
    let n: usize = v.len();
    let first: u32 = v[from] as u32 - '0' as u32;
    if from + 1 >= n || !('0' <= v[from + 1] && v[from + 1] <= '7') {
        return (first, from + 1);
    }
    let second: u32 = v[from + 1] as u32 - '0' as u32;
    if from + 2 >= n || !('0' <= v[from + 2] && v[from + 2] <= '7') {
        return (first * 8 + second, from + 2);
    }
    let third: u32 = v[from + 2] as u32 - '0' as u32;
    (first * 64 + second * 8 + third, from + 3)
}

/// The character with a scalar value of at most nine bits.
fn small_char(code: u32) -> (r: char)
    requires
        code < 512,
    ensures
        r == code as char,
{
    match char_of(code) {
        Some(c) => c,
        None => ' ',
    }
}

/// Reads the octal escapes that follow one another from `from` on: their text,
/// and where they end.
fn read_run(v: &Vec<char>, from: usize) -> (r: (String, usize))
    requires
        from < v@.len(),
        octal_at(v@, from as int),
    ensures
        r.0@ == octal_text(octal_run(v@, from as int)),
        r.1 == octal_run_end(v@, from as int),
        from < r.1 <= v@.len(),
{
    let n: usize = v.len();
    let ghost all = octal_run(v@, from as int);
    let mut numbers: Vec<u32> = Vec::new();
    let mut bytes: Vec<u8> = Vec::new();
    let mut narrow: bool = true;
    let mut at: usize = from;
    let ghost mut read: Seq<int> = Seq::empty();
    proof {
        lemma_run_end(v@, from as int);
        assert(read + octal_run(v@, at as int) =~= all);
    }
    while at < n && n - at > 1 && v[at] == '\\' && '0' <= v[at + 1] && v[at + 1] <= '7'
        invariant
            n == v@.len(),
            from <= at <= n,
            all == read + octal_run(v@, at as int),
            octal_run_end(v@, from as int) == octal_run_end(v@, at as int),
            numbers@.len() == read.len(),
            bytes@.len() == read.len(),
            forall|i: int|
                0 <= i < read.len() ==> #[trigger] numbers@[i] == read[i] && 0 <= read[i] < 512,
            forall|i: int| 0 <= i < read.len() ==> #[trigger] bytes@[i] == read[i] as u8,
            narrow == (forall|i: int| 0 <= i < read.len() ==> #[trigger] read[i] < 256),
        decreases n - at,
    {
        let (number, next) = read_octal(v, at + 1);
        let ghost was = read;
        proof {
            read = read.push(number as int);
            assert(all =~= read + octal_run(v@, next as int));
            assert(read.last() == number);
            if narrow && number < 256 {
                assert forall|i: int| 0 <= i < read.len() implies #[trigger] read[i] < 256 by {
                    if i < was.len() {
                        assert(was[i] < 256);
                    }
                }
            } else if narrow {
                assert(read[read.len() - 1] >= 256);
            } else {
                let i = choose|i: int| 0 <= i < was.len() && #[trigger] was[i] >= 256;
                assert(read[i] >= 256);
            }
        }
        numbers.push(number);
        bytes.push(#[verifier::truncate] (number as u8));
        if number >= 256 {
            narrow = false;
        }
        at = next;
    }
    assert(octal_run(v@, at as int) =~= Seq::<int>::empty());
    assert(all =~= read);
    assert(bytes@ =~= as_bytes(all));
    assert forall|i: int| 0 <= i < all.len() implies 0 <= #[trigger] all[i] < 512 by {
        assert(numbers@[i] == read[i]);
    }
    assert forall|i: int| 0 <= i < all.len() implies #[trigger] numbers@[i] == all[i] && 0 <= all[i]
        < 512 by {
        assert(numbers@[i] == read[i]);
    }
    if narrow {
        if let Some(text) = text_of_bytes(bytes) {
            assert(is_utf8(all));
            return (text, at);
        }
    }
    assert(!is_utf8(all));
    let mut out = String::new();
    let mut i: usize = 0;
    while i < numbers.len()
        invariant
            i <= numbers@.len(),
            numbers@.len() == all.len(),
            forall|j: int|
                0 <= j < all.len() ==> #[trigger] numbers@[j] == all[j] && 0 <= all[j] < 512,
            out@ == as_chars(all).take(i as int),
        decreases numbers@.len() - i,
    {
        assert(numbers@[i as int] == all[i as int]);
        out.push(small_char(numbers[i]));
        assert(out@ =~= as_chars(all).take(i + 1));
        i = i + 1;
    }
    assert(as_chars(all).take(all.len() as int) =~= as_chars(all));
    (out, at)
}

/// Reverses the C-style escaping that the helper applies to message text.
pub fn unescape(input: &str) -> (r: String)
    ensures
        r@ == unescaped(input@),
{
    let v = chars_of(input);
    let n: usize = v.len();
    let mut out = String::new();
    let mut at: usize = 0;
    assert(out@ + unescaped_from(v@, 0) =~= unescaped(input@));
    while at < n
        invariant
            n == v@.len(),
            v@ == input@,
            at <= n,
            out@ + unescaped_from(v@, at as int) == unescaped(input@),
        decreases n - at,
    {
        let c = v[at];
        let ghost before = out@;
        if c != '\\' {
            out.push(c);
            at = at + 1;
            assert(out@ + unescaped_from(v@, at as int) =~= before + (seq![c] + unescaped_from(
                v@,
                at as int,
            )));
        } else if n - at == 1 {
            out.push('\\');
            at = at + 1;
            assert(unescaped_from(v@, at as int) =~= Seq::<char>::empty());
            assert(out@ + unescaped_from(v@, at as int) =~= before + seq!['\\']);
        } else if '0' <= v[at + 1] && v[at + 1] <= '7' {
            let (text, end) = read_run(&v, at);
            out.append(&text);
            assert(out@ + unescaped_from(v@, end as int) =~= before + (text@ + unescaped_from(
                v@,
                end as int,
            )));
            at = end;
        } else {
            let e = v[at + 1];
            let plain = match e {
                'n' => '\n',
                'r' => '\r',
                't' => '\t',
                'b' => '\u{8}',
                'f' => '\u{c}',
                'v' => '\u{b}',
                other => other,
            };
            out.push(plain);
            at = at + 2;
            assert(out@ + unescaped_from(v@, at as int) =~= before + (seq![simple(e)]
                + unescaped_from(v@, at as int)));
        }
    }
    assert(unescaped_from(v@, at as int) =~= Seq::<char>::empty());
    assert(out@ + Seq::<char>::empty() =~= out@);
    out
}

/// Whether a character is escaped as octal bytes: everything that does not print,
/// but for the few that have a letter of their own.
pub open spec fn needs_octal(c: char) -> bool {
    &&& (c as u32) < 0x20 || (c as u32) >= 0x7f
    &&& !('\u{8}' <= c <= '\r')
}

/// A byte as an octal escape.
pub open spec fn octal(byte: u8) -> Seq<char> {
    seq![
        '\\',
        ((byte / 64) as int + '0' as int) as char,
        ((byte / 8) % 8 + '0' as int) as char,
        (byte % 8 + '0' as int) as char,
    ]
}

/// Bytes as octal escapes.
pub open spec fn octals(bytes: Seq<u8>) -> Seq<char>
    decreases bytes.len(),
{
    if bytes.len() == 0 {
        Seq::empty()
    } else {
        octal(bytes[0]) + octals(bytes.skip(1))
    }
}

/// The escaped form of one character.
pub open spec fn escape(c: char) -> Seq<char> {
    if c == '\u{8}' {
        seq!['\\', 'b']
    } else if c == '\t' {
        seq!['\\', 't']
    } else if c == '\n' {
        seq!['\\', 'n']
    } else if c == '\u{b}' {
        seq!['\\', 'v']
    } else if c == '\u{c}' {
        seq!['\\', 'f']
    } else if c == '\r' {
        seq!['\\', 'r']
    } else if c == '\\' || c == '"' {
        seq!['\\', c]
    } else if needs_octal(c) {
        octals(vstd::utf8::encode_scalar(c as u32))
    } else {
        seq![c]
    }
}

/// A text as the helper escapes it.
pub open spec fn escaped(s: Seq<char>) -> Seq<char>
    decreases s.len(),
{
    if s.len() == 0 {
        Seq::empty()
    } else {
        escape(s[0]) + escaped(s.skip(1))
    }
}

/// What comes before a place makes no difference to what is read from there on.
proof fn lemma_shift(a: Seq<char>, b: Seq<char>, k: int)
    requires
        0 <= k <= b.len(),
    ensures
        octal_run(a + b, a.len() + k) == octal_run(b, k),
        octal_run_end(a + b, a.len() + k) == a.len() + octal_run_end(b, k),
        unescaped_from(a + b, a.len() + k) == unescaped_from(b, k),
    decreases b.len() - k,
{
    let s = a + b;
    let at = a.len() + k;
    assert(forall|i: int| 0 <= i < b.len() ==> #[trigger] s[a.len() + i] == b[i]);
    if k < b.len() {
        assert(s[at] == b[k]);
        if k + 1 < b.len() {
            assert(s[at + 1] == b[k + 1]);
            if k + 2 < b.len() {
                assert(s[at + 2] == b[k + 2]);
                if k + 3 < b.len() {
                    assert(s[at + 3] == b[k + 3]);
                }
            }
        }
        if octal_at(b, k) {
            lemma_octal_number(b, k + 1);
            let n = octal_len(b, k + 1);
            assert(octal_len(s, at + 1) == n);
            assert(octal_number(s, at + 1) == octal_number(b, k + 1));
            lemma_shift(a, b, k + 1 + n);
            assert(octal_run(s, at) == octal_run(b, k));
            lemma_run_end(b, k);
            lemma_shift(a, b, octal_run_end(b, k));
        } else if b[k] == '\\' {
            if k + 1 < b.len() {
                lemma_shift(a, b, k + 2);
            }
        } else {
            lemma_shift(a, b, k + 1);
        }
    }
}

/// The digits of an octal escape read back as its byte.
proof fn lemma_octal_reads_back(byte: u8, rest: Seq<char>)
    ensures
        octal_at(octal(byte) + rest, 0),
        octal_len(octal(byte) + rest, 1) == 3,
        octal_number(octal(byte) + rest, 1) == byte,
{
    let s = octal(byte) + rest;
    assert(byte / 64 < 8 && (byte / 8) % 8 < 8 && byte % 8 < 8);
    assert(s[0] == '\\');
    assert(s[1] == octal(byte)[1] && s[2] == octal(byte)[2] && s[3] == octal(byte)[3]);
    assert(byte == (byte / 64) * 64 + ((byte / 8) % 8) * 8 + byte % 8);
}

/// Bytes written as octal escapes, with something else behind them, read back as
/// one run.
proof fn lemma_octals_read_back(bytes: Seq<u8>, rest: Seq<char>)
    requires
        !octal_at(rest, 0),
    ensures
        octal_run(octals(bytes) + rest, 0) == bytes.map_values(|b: u8| b as int),
        octal_run_end(octals(bytes) + rest, 0) == octals(bytes).len(),
    decreases bytes.len(),
{
    let s = octals(bytes) + rest;
    if bytes.len() == 0 {
        assert(s =~= rest);
        assert(octal_run(s, 0) =~= bytes.map_values(|b: u8| b as int));
    } else {
        let tail = octals(bytes.skip(1)) + rest;
        assert(s =~= octal(bytes[0]) + tail);
        lemma_octal_reads_back(bytes[0], tail);
        lemma_octals_read_back(bytes.skip(1), rest);
        lemma_shift(octal(bytes[0]), tail, 0);
        assert(octal_run(s, 0) =~= seq![bytes[0] as int] + octal_run(tail, 0));
        assert(octal_run(s, 0) =~= bytes.map_values(|b: u8| b as int));
    }
}

/// Octal escapes of bytes laid end to end.
proof fn lemma_octals_concat(a: Seq<u8>, b: Seq<u8>)
    ensures
        octals(a + b) == octals(a) + octals(b),
    decreases a.len(),
{
    if a.len() == 0 {
        assert(a + b =~= b);
        assert(octals(a) + octals(b) =~= octals(b));
    } else {
        lemma_octals_concat(a.skip(1), b);
        assert((a + b).skip(1) =~= a.skip(1) + b);
        assert(octals(a + b) =~= octals(a) + octals(b));
    }
}

/// How many of the characters that a text starts with are escaped as octal bytes.
spec fn octal_prefix(s: Seq<char>) -> int
    decreases s.len(),
{
    if s.len() > 0 && needs_octal(s[0]) {
        1 + octal_prefix(s.skip(1))
    } else {
        0
    }
}

/// The characters that a text starts with and that are escaped as octal bytes make
/// one run of escapes.
proof fn lemma_octal_prefix(s: Seq<char>)
    ensures
        0 <= octal_prefix(s) <= s.len(),
        octal_prefix(s) < s.len() ==> !needs_octal(s[octal_prefix(s)]),
        escaped(s) == octals(vstd::utf8::encode_utf8(s.take(octal_prefix(s)))) + escaped(
            s.skip(octal_prefix(s)),
        ),
    decreases s.len(),
{
    if s.len() > 0 && needs_octal(s[0]) {
        let rest = s.skip(1);
        lemma_octal_prefix(rest);
        let m = octal_prefix(rest);
        let head = vstd::utf8::encode_scalar(s[0] as u32);
        let tail = vstd::utf8::encode_utf8(rest.take(m));
        assert(s.take(m + 1).drop_first() =~= rest.take(m));
        assert(s.skip(m + 1) =~= rest.skip(m));
        assert(vstd::utf8::encode_utf8(s.take(m + 1)) =~= head + tail);
        lemma_octals_concat(head, tail);
        assert(escaped(s) =~= octals(head + tail) + escaped(rest.skip(m)));
    } else {
        assert(s.take(0) =~= Seq::<char>::empty());
        assert(s.skip(0) =~= s);
        assert(vstd::utf8::encode_utf8(s.take(0)) =~= Seq::<u8>::empty());
        assert(octals(Seq::<u8>::empty()) + escaped(s) =~= escaped(s));
    }
}

/// What is escaped in another way does not start with an octal escape.
proof fn lemma_escaped_start(s: Seq<char>)
    requires
        s.len() > 0 ==> !needs_octal(s[0]),
    ensures
        !octal_at(escaped(s), 0),
{
    if s.len() > 0 {
        let e = escape(s[0]);
        assert(escaped(s)[0] == e[0]);
        if e.len() > 1 {
            assert(escaped(s)[1] == e[1]);
        }
    }
}

/// Unescaping is the inverse of the helper's escaping: whatever text it escapes
/// comes out as that text.
pub proof fn law_unescape_inverts_escape(s: Seq<char>)
    ensures
        unescaped(escaped(s)) == s,
    decreases s.len(),
{
    let e = escaped(s);
    if s.len() == 0 {
        assert(unescaped(e) =~= s);
    } else if needs_octal(s[0]) {
        let m = octal_prefix(s);
        let bytes = vstd::utf8::encode_utf8(s.take(m));
        let rest = escaped(s.skip(m));
        lemma_octal_prefix(s);
        assert(m >= 1) by {
            lemma_octal_prefix(s.skip(1));
        }
        if m < s.len() {
            assert(s.skip(m)[0] == s[m]);
        }
        lemma_escaped_start(s.skip(m));
        lemma_octals_read_back(bytes, rest);
        let numbers = bytes.map_values(|b: u8| b as int);
        assert(as_bytes(numbers) =~= bytes);
        vstd::utf8::encode_utf8_valid_utf8(s.take(m));
        vstd::utf8::encode_utf8_decode_utf8(s.take(m));
        assert(octal_text(numbers) == s.take(m));
        lemma_shift(octals(bytes), rest, 0);
        law_unescape_inverts_escape(s.skip(m));
        crate::utf8::lemma_bytes_encoded(s.take(m));
        crate::utf8::lemma_bytes_at_least(s.take(m));
        assert(octal_at(e, 0)) by {
            lemma_octal_reads_back(bytes[0], octals(bytes.skip(1)) + rest);
            assert(e =~= octal(bytes[0]) + (octals(bytes.skip(1)) + rest));
        }
        lemma_run_end(e, 0);
        assert(unescaped(e) == octal_text(numbers) + unescaped_from(e, octals(bytes).len() as int));
        assert(s.take(m) + s.skip(m) =~= s);
    } else {
        let rest = escaped(s.skip(1));
        let first = escape(s[0]);
        law_unescape_inverts_escape(s.skip(1));
        lemma_shift(first, rest, 0);
        assert(e[0] == first[0]);
        if first.len() == 2 {
            assert(e[1] == first[1]);
            assert(unescaped_from(e, 0) == seq![simple(e[1])] + unescaped_from(e, 2));
        } else {
            assert(unescaped_from(e, 0) == seq![e[0]] + unescaped_from(e, 1));
        }
        assert(seq![s[0]] + s.skip(1) =~= s);
    }
}

/// A character that is not escaped stands for itself, and a backslash at the very end does
/// too.
pub proof fn law_plain_characters_stand_for_themselves(s: Seq<char>, from: int)
    requires
        0 <= from < s.len(),
    ensures
        s[from] != '\\' ==> unescaped_from(s, from) == seq![s[from]] + unescaped_from(s, from + 1),
        s[from] == '\\' && from + 1 == s.len() ==> unescaped_from(s, from) == seq!['\\'],
{
}

/// The usual letters behind a backslash stand for the usual controls, and any other character
/// that is no digit of eight for itself.
pub proof fn law_letters_stand_for_controls(s: Seq<char>, from: int)
    requires
        0 <= from,
        from + 1 < s.len(),
        s[from] == '\\',
        !('0' <= s[from + 1] <= '7'),
    ensures
        ({
            let c = s[from + 1];
            let meant = unescaped_from(s, from)[0];
            &&& unescaped_from(s, from) == seq![meant] + unescaped_from(s, from + 2)
            &&& c == 'n' ==> meant as u32 == 10
            &&& c == 'r' ==> meant as u32 == 13
            &&& c == 't' ==> meant as u32 == 9
            &&& c == 'b' ==> meant as u32 == 8
            &&& c == 'f' ==> meant as u32 == 12
            &&& c == 'v' ==> meant as u32 == 11
            &&& c != 'n' && c != 'r' && c != 't' && c != 'b' && c != 'f' && c != 'v' ==> meant == c
        }),
{
}

/// Up to three digits of eight behind a backslash are the number of a byte.
pub proof fn law_digits_of_eight_are_bytes(s: Seq<char>, from: int, a: int, b: int, c: int)
    requires
        0 <= from,
        from + 2 < s.len(),
        0 <= a < 8,
        0 <= b < 8,
        0 <= c < 8,
        s[from] == (48 + a) as char,
        s[from + 1] == (48 + b) as char,
        s[from + 2] == (48 + c) as char,
    ensures
        octal_len(s, from) == 3,
        octal_number(s, from) == 64 * a + 8 * b + c,
{
}

/// Bytes that are escaped one after the other are read together, as the text that they encode.
pub proof fn law_escaped_bytes_are_read_as_text(numbers: Seq<int>)
    ensures
        is_utf8(numbers) ==> octal_text(numbers) == vstd::utf8::decode_utf8(as_bytes(numbers)),
        !is_utf8(numbers) ==> octal_text(numbers).len() == numbers.len() && forall|i: int|
            0 <= i < numbers.len() ==> #[trigger] octal_text(numbers)[i] == numbers[i] as char,
{
}

} // verus!
