//! Moments, written out.

use vstd::prelude::*;

use crate::cards::uppercase;
use crate::text::chars_of;

verus! {

/// Whether there is such a moment: it is in the years from -262143 to 262142, and its
/// nanoseconds are less than a second, or than two in a leap second.
pub open spec fn has_moment(seconds: i64, nanos: u32) -> bool {
    &&& -8_334_601_228_800 <= seconds <= 8_210_266_876_799
    &&& nanos < 1_000_000_000 || (nanos < 2_000_000_000 && seconds % 60 == 59)
}

/// Whether there is such a moment, and a place so far away from UTC.
pub open spec fn has_place(seconds: i64, nanos: u32, offset: i32) -> bool {
    has_moment(seconds, nanos) && -86_400 < offset < 86_400
}

/// The ways in which moments are written out here.
pub open spec fn is_format(format: Seq<char>) -> bool {
    ||| format == "%A, %Y-%m-%d %H:%M:%S %Z"@
    ||| format == "%Y-%m-%d %H:%M:%S"@
    ||| format == "%H:%M"@
    ||| format == "%a, %e %b"@
}

/// A moment written out, `offset` seconds east of UTC: what
/// `chrono::DateTime::format` makes of it.
pub uninterp spec fn date_text(
    seconds: i64,
    nanos: u32,
    offset: i32,
    format: Seq<char>,
) -> Seq<char>;

/// `chrono::FixedOffset::east_opt` and `chrono::TimeZone::timestamp_opt` place a
/// moment, and `chrono::DateTime::format` writes it out. There is no such place a day
/// or more away from UTC.
#[verifier::external_body]
pub(crate) fn format_moment(seconds: i64, nanos: u32, offset: i32, format: &str) -> (r: Option<
    String,
>)
    requires
        is_format(format@),
    ensures
        crate::text::opt_view(r) == (if has_place(seconds, nanos, offset) {
            Some(date_text(seconds, nanos, offset, format@))
        } else {
            None
        }),
{
    let place = chrono::FixedOffset::east_opt(offset)?;
    let moment = chrono::TimeZone::timestamp_opt(&place, seconds, nanos).single()?;
    Some(moment.format(format).to_string())
}

/// A text with each character in upper case.
pub open spec fn in_upper_case(text: Seq<char>) -> Seq<char>
    decreases text.len(),
{
    if text.len() == 0 {
        Seq::empty()
    } else {
        in_upper_case(text.drop_last()) + crate::cards::uppercase_of(text.last())
    }
}

/// Puts a text into upper case; see [`in_upper_case`].
pub fn to_upper_case(text: &str) -> (r: String)
    ensures
        r@ == in_upper_case(text@),
{
    let chars = chars_of(text);
    let mut out = String::new();
    assert(out@ =~= in_upper_case(text@.take(0)));
    for i in 0..chars.len()
        invariant
            chars@ == text@,
            out@ == in_upper_case(text@.take(i as int)),
    {
        assert(text@.take(i + 1).drop_last() =~= text@.take(i as int));
        out.append(&uppercase(chars[i]));
    }
    assert(text@.take(text@.len() as int) =~= text@);
    out
}

/// What the desktop clock shows of a moment: the time, and the date in upper case.
/// Nothing where there is no such moment or place.
pub fn clock_texts(seconds: i64, offset: i32) -> (r: Option<(String, String)>)
    ensures
        match r {
            Some((time, date)) => {
                &&& has_place(seconds, 0, offset)
                &&& time@ == date_text(seconds, 0, offset, "%H:%M"@)
                &&& date@ == in_upper_case(date_text(seconds, 0, offset, "%a, %e %b"@))
            },
            None => !has_place(seconds, 0, offset),
        },
{
    match (
        format_moment(seconds, 0, offset, "%H:%M"),
        format_moment(seconds, 0, offset, "%a, %e %b"),
    ) {
        (Some(time), Some(date)) => Some((time, to_upper_case(&date))),
        _ => None,
    }
}

/// Writing in capitals goes character by character: the capitals of two texts side by side
/// are their capitals side by side.
pub proof fn law_capitals_go_character_by_character(before: Seq<char>, after: Seq<char>, c: char)
    ensures
        in_upper_case(before + after) == in_upper_case(before) + in_upper_case(after),
        in_upper_case(seq![c]) == crate::cards::uppercase_of(c),
        in_upper_case(Seq::<char>::empty()) == Seq::<char>::empty(),
    decreases after.len(),
{
    reveal_with_fuel(in_upper_case, 2);
    let one = seq![c];
    assert(one.drop_last() =~= Seq::<char>::empty());
    assert(in_upper_case(one) =~= crate::cards::uppercase_of(c));
    if after.len() == 0 {
        assert(before + after =~= before);
        assert(in_upper_case(before) + in_upper_case(after) =~= in_upper_case(before));
    } else {
        let whole = before + after;
        assert(whole.drop_last() =~= before + after.drop_last());
        law_capitals_go_character_by_character(before, after.drop_last(), c);
        assert(in_upper_case(whole) =~= in_upper_case(before) + in_upper_case(after));
    }
}

/// A clock is set less than a day apart in either direction, and a moment lies within
/// the days that can be counted; only the last second of a minute can be a leap second.
pub proof fn law_moments_lie_in_countable_days(seconds: i64, nanos: u32, offset: i32)
    ensures
        has_place(seconds, nanos, offset) <==> has_moment(seconds, nanos) && -86_399 <= offset
            <= 86_399,
        has_moment(seconds, 0) <==> -96_465_292 * 86_400 <= seconds < 95_026_237 * 86_400,
        has_moment(seconds, nanos) ==> has_moment(seconds, 0) && nanos <= 1_999_999_999,
        has_moment(seconds, 0) && nanos <= 999_999_999 ==> has_moment(seconds, nanos),
        has_moment(seconds, 0) && 1_000_000_000 <= nanos <= 1_999_999_999 ==> (has_moment(
            seconds,
            nanos,
        ) <==> seconds % 60 == 59),
{
}

} // verus!
