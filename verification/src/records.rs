//! Notifications that were kept, printed for a terminal.

use vstd::prelude::*;

use crate::moment::format_moment;
use crate::number::decimal;
use crate::systray::quote;

verus! {

/// A notification that was kept.
#[derive(Debug)]
pub struct NotificationRecord {
    /// When it came, in seconds since the epoch.
    pub timestamp: i64,
    /// How far east of UTC the clocks stood then, in seconds.
    pub offset: i32,
    pub urgency: u8,
    pub app_name: String,
    pub app_icon: String,
    pub summary: String,
    pub body: String,
}

/// A number with its sign.
pub open spec fn with_sign(n: int) -> Seq<char> {
    if n < 0 {
        seq!['-'] + crate::number::written(-n, 10)
    } else {
        crate::number::written(n, 10)
    }
}

fn write_signed(n: i64) -> (r: String)
    ensures
        r@ == with_sign(n as int),
{
    if n < 0 {
        let mut out = String::new();
        out.push('-');
        let magnitude: u64 = if n == i64::MIN {
            9_223_372_036_854_775_808
        } else {
            (-n) as u64
        };
        out.append(&decimal(magnitude));
        assert(out@ =~= with_sign(n as int));
        out
    } else {
        decimal(n as u64)
    }
}

/// When a notification came, `offset` seconds east of UTC; the bare number where
/// there is no such moment.
pub open spec fn when_text(timestamp: i64, offset: i32) -> Seq<char> {
    if crate::moment::has_place(timestamp, 0, offset) {
        crate::moment::date_text(timestamp, 0, offset, "%Y-%m-%d %H:%M:%S"@)
    } else {
        with_sign(timestamp as int)
    }
}

/// What an urgency is called.
pub open spec fn urgency_name(urgency: u8) -> Seq<char> {
    match urgency {
        0 => "low"@,
        2 => "critical"@,
        _ => "normal"@,
    }
}

/// The first line of a record.
pub open spec fn headline(record: NotificationRecord) -> Seq<char> {
    when_text(record.timestamp, record.offset) + "  ["@ + urgency_name(record.urgency) + "]  app="@
        + crate::systray::quoted(record.app_name@) + "  icon="@ + crate::systray::quoted(
        record.app_icon@,
    )
}

/// The lines of a record: what and when, then what it says, as far as it says it.
pub open spec fn record_lines(record: NotificationRecord) -> Seq<Seq<char>> {
    seq![headline(record)] + (if record.summary@.len() > 0 {
        seq!["    summary: "@ + record.summary@]
    } else {
        Seq::empty()
    }) + (if record.body@.len() > 0 {
        seq!["    body:    "@ + record.body@]
    } else {
        Seq::empty()
    })
}

fn print_record(record: &NotificationRecord) -> (r: Vec<String>)
    ensures
        crate::text::views(r@) == record_lines(*record),
{
    let mut line = match format_moment(record.timestamp, 0, record.offset, "%Y-%m-%d %H:%M:%S") {
        Some(when) => when,
        None => write_signed(record.timestamp),
    };
    line.append("  [");
    line.append(
        match record.urgency {
            0 => "low",
            2 => "critical",
            _ => "normal",
        },
    );
    line.append("]  app=");
    line.append(&quote(&record.app_name));
    line.append("  icon=");
    line.append(&quote(&record.app_icon));
    let mut out: Vec<String> = Vec::new();
    out.push(line);
    if !record.summary.as_str().is_empty() {
        let mut summary = "    summary: ".to_owned();
        summary.append(&record.summary);
        out.push(summary);
    }
    if !record.body.as_str().is_empty() {
        let mut body = "    body:    ".to_owned();
        body.append(&record.body);
        out.push(body);
    }
    assert(crate::text::views(out@) =~= record_lines(*record));
    out
}

/// The lines of the first `n` records.
pub open spec fn all_lines(records: Seq<NotificationRecord>, n: int) -> Seq<Seq<char>>
    decreases n,
{
    if n <= 0 {
        Seq::empty()
    } else {
        all_lines(records, n - 1) + record_lines(records[n - 1])
    }
}

/// Prints records, or says that there are none.
pub fn print_recent_notifications(records: &Vec<NotificationRecord>) -> (r: Vec<String>)
    ensures
        crate::text::views(r@) == (if records@.len() == 0 {
            seq!["No notifications in history."@]
        } else {
            all_lines(records@, records@.len() as int)
        }),
{
    let mut out: Vec<String> = Vec::new();
    if records.len() == 0 {
        out.push("No notifications in history.".to_owned());
        assert(crate::text::views(out@) =~= seq!["No notifications in history."@]);
        return out;
    }
    assert(crate::text::views(out@) =~= all_lines(records@, 0));
    for i in 0..records.len()
        invariant
            crate::text::views(out@) == all_lines(records@, i as int),
    {
        let ghost was = out@;
        let mut lines = print_record(&records[i]);
        let ghost more = lines@;
        out.append(&mut lines);
        assert(crate::text::views(out@) =~= crate::text::views(was) + crate::text::views(more));
    }
    out
}

/// A number and its opposite differ in the sign that is written before them, and in nothing
/// else; no sign is written before a number that is not negative.
pub proof fn law_signs_mark_negative_numbers(n: int)
    requires
        n > 0,
    ensures
        with_sign(-n) == seq!['-'] + with_sign(n),
        with_sign(n) == crate::number::written(n, 10),
        with_sign(0) == crate::number::written(0, 10),
{
}

/// The urgency is named for each of the three that there are, and any other number is normal.
pub proof fn law_urgencies_are_named(urgency: u8)
    ensures
        urgency_name(urgency) == "low"@ <==> urgency == 0,
        urgency_name(urgency) == "critical"@ <==> urgency == 2,
        urgency_name(urgency) == "normal"@ <==> urgency != 0 && urgency != 2,
{
    reveal_strlit("low");
    reveal_strlit("normal");
    reveal_strlit("critical");
    assert("low"@.len() == 3 && "normal"@.len() == 6 && "critical"@.len() == 8);
}

/// A moment that has a date is shown by it, and one that has none by its number of seconds.
pub proof fn law_moments_are_dated(timestamp: i64, offset: i32)
    ensures
        crate::moment::has_place(timestamp, 0, offset) ==> when_text(timestamp, offset)
            == crate::moment::date_text(timestamp, 0, offset, "%Y-%m-%d %H:%M:%S"@),
        !crate::moment::has_place(timestamp, 0, offset) ==> when_text(timestamp, offset)
            == with_sign(timestamp as int),
{
}

/// The headline says when it was, how urgent it was, and who sent it with which icon, in that
/// order.
pub proof fn law_headlines_name_their_sender(record: NotificationRecord)
    ensures
        ({
            let when = when_text(record.timestamp, record.offset);
            let urgency = urgency_name(record.urgency);
            let app = crate::systray::quoted(record.app_name@);
            let icon = crate::systray::quoted(record.app_icon@);
            let line = headline(record);
            &&& when.is_prefix_of(line)
            &&& (when + "  ["@ + urgency + "]  app="@ + app).is_prefix_of(line)
            &&& ("  icon="@ + icon).is_suffix_of(line)
            &&& line.len() == when.len() + urgency.len() + app.len() + icon.len() + 17
        }),
{
    let when = when_text(record.timestamp, record.offset);
    let urgency = urgency_name(record.urgency);
    let app = crate::systray::quoted(record.app_name@);
    let icon = crate::systray::quoted(record.app_icon@);
    let line = headline(record);
    reveal_strlit("  [");
    reveal_strlit("]  app=");
    reveal_strlit("  icon=");
    let head = when + "  ["@ + urgency + "]  app="@ + app;
    assert("  ["@.len() == 3 && "]  app="@.len() == 7 && "  icon="@.len() == 7);
    assert(line =~= head + ("  icon="@ + icon));
    assert(line.take(when.len() as int) =~= when);
    assert(line.take(head.len() as int) =~= head);
    assert(line.skip(head.len() as int) =~= "  icon="@ + icon);
}

/// Each record has its headline, a line for its summary and one for its body, and those that
/// are empty are left out.
pub proof fn law_records_show_what_they_hold(record: NotificationRecord)
    ensures
        ({
            let lines = record_lines(record);
            let summary: int = if record.summary@.len() > 0 { 1 } else { 0 };
            let body: int = if record.body@.len() > 0 { 1 } else { 0 };
            &&& lines.len() == 1 + summary + body
            &&& lines[0] == headline(record)
            &&& summary == 1 ==> lines[1] == "    summary: "@ + record.summary@
            &&& body == 1 ==> lines.last() == "    body:    "@ + record.body@
        }),
{
}

/// Every record is shown, in the order in which the records come and next to each other.
pub proof fn law_every_record_is_shown(records: Seq<NotificationRecord>, n: int, k: int)
    requires
        0 <= k < n <= records.len(),
    ensures
        ({
            let at = all_lines(records, k).len() as int;
            let own = record_lines(records[k]);
            &&& at + own.len() <= all_lines(records, n).len()
            &&& all_lines(records, n).subrange(at, at + own.len()) == own
        }),
        all_lines(records, 0).len() == 0,
    decreases n,
{
    let all = all_lines(records, n);
    let before = all_lines(records, n - 1);
    let own = record_lines(records[k]);
    let at = all_lines(records, k).len() as int;
    if k == n - 1 {
        assert(all.subrange(at, at + own.len()) =~= own);
    } else {
        law_every_record_is_shown(records, n - 1, k);
        assert(all.subrange(at, at + own.len()) =~= before.subrange(at, at + own.len()));
    }
}

} // verus!
