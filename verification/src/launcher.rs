//! The launcher's own list: what can be launched, how well it matches what is
//! typed, and the answers that typing alone can give.

use vstd::prelude::*;

use crate::icon::IconName;
use crate::matcher::{collect_matches, fuzzy_score, MAX_QUERY, MAX_TERM};
use crate::moment::format_moment;
use crate::number::read_signed;
use crate::text::{chars_of, same, trim};
use crate::utf8::byte_len;

verus! {

/// What can be launched.
#[derive(Debug)]
pub enum RootItem {
    /// An application, as its desktop entry describes it in the user's language.
    App {
        appid: String,
        app_name: Option<String>,
        generic_name: Option<String>,
        categories: Vec<String>,
    },
    /// A panel of the launcher itself.
    Panel {
        id: String,
        icon: IconName,
        name: String,
        description: Option<String>,
        terms: Vec<String>,
    },
}

impl RootItem {
    /// What launches of the item are counted under.
    pub open spec fn key(&self) -> Seq<char> {
        match self {
            RootItem::App { appid, .. } => "app:"@ + appid@,
            RootItem::Panel { id, .. } => "panel:"@ + id@,
        }
    }

    pub fn id(&self) -> (r: String)
        ensures
            r@ == self.key(),
    {
        match self {
            RootItem::App { appid, .. } => {
                let mut out = "app:".to_owned();
                out.append(appid);
                out
            },
            RootItem::Panel { id, .. } => {
                let mut out = "panel:".to_owned();
                out.append(id);
                out
            },
        }
    }

    /// An application and a panel are never counted under the same key.
    pub proof fn law_keys_tell_kinds_apart(&self, other: &RootItem)
        requires
            self is App,
            other is Panel,
        ensures
            self.key() != other.key(),
    {
        reveal_strlit("app:");
        reveal_strlit("panel:");
        assert(self.key()[0] == 'a');
        assert(other.key()[0] == 'p');
    }

    pub fn type_label(&self) -> (r: String)
        ensures
            r@ == (match self {
                RootItem::App { .. } => "app"@,
                RootItem::Panel { .. } => "panel"@,
            }),
    {
        match self {
            RootItem::App { .. } => "app".to_owned(),
            RootItem::Panel { .. } => "panel".to_owned(),
        }
    }

    /// What the item is found under.
    pub open spec fn found_under(&self) -> Seq<Seq<char>> {
        match self {
            RootItem::App { appid, app_name, generic_name, categories } => seq![appid@] + optional(
                crate::text::opt_view(*app_name),
            ) + optional(crate::text::opt_view(*generic_name)) + crate::text::views(categories@),
            RootItem::Panel { name, terms, .. } => seq![name@] + crate::text::views(terms@),
        }
    }

    /// Lists what the item is found under: an application by its id, its names and
    /// its categories, a panel by its name and its terms.
    pub fn terms(&self) -> (r: Vec<String>)
        ensures
            crate::text::views(r@) == self.found_under(),
    {
        let mut out: Vec<String> = Vec::new();
        match self {
            RootItem::App { appid, app_name, generic_name, categories } => {
                out.push(appid.clone());
                if let Some(app_name) = app_name {
                    out.push(app_name.clone());
                }
                if let Some(generic_name) = generic_name {
                    out.push(generic_name.clone());
                }
                let mut more = crate::names::copy_names(categories);
                let ghost head = out@;
                out.append(&mut more);
                assert(crate::text::views(out@) =~= crate::text::views(head) + crate::text::views(
                    categories@,
                ));
                assert(crate::text::views(head) =~= seq![appid@] + optional(
                    crate::text::opt_view(*app_name),
                ) + optional(crate::text::opt_view(*generic_name)));
            },
            RootItem::Panel { name, terms, .. } => {
                out.push(name.clone());
                let mut more = crate::names::copy_names(terms);
                let ghost head = out@;
                out.append(&mut more);
                assert(crate::text::views(out@) =~= crate::text::views(head) + crate::text::views(
                    terms@,
                ));
                assert(crate::text::views(head) =~= seq![name@]);
            },
        }
        out
    }
}

/// A list of one text, or of none.
pub open spec fn optional(text: Option<Seq<char>>) -> Seq<Seq<char>> {
    match text {
        Some(text) => seq![text],
        None => Seq::empty(),
    }
}

/// The better of two scores.
pub open spec fn better(a: Option<u32>, b: Option<u32>) -> Option<u32> {
    match (a, b) {
        (Some(x), Some(y)) => if x >= y {
            Some(x)
        } else {
            Some(y)
        },
        (Some(x), None) => Some(x),
        (None, b) => b,
    }
}

/// The best of the first `n` scores, if any of them is one.
pub open spec fn best(scores: Seq<Option<u32>>, n: int) -> Option<u32>
    decreases n,
{
    if n <= 0 {
        None
    } else {
        better(best(scores, n - 1), scores[n - 1])
    }
}

/// The best of some scores; see [`best`].
pub fn best_score(scores: &Vec<Option<u32>>) -> (r: Option<u32>)
    ensures
        r == best(scores@, scores@.len() as int),
{
    let mut top: Option<u32> = None;
    for i in 0..scores.len()
        invariant
            top == best(scores@, i as int),
    {
        top = match (top, scores[i]) {
            (Some(x), Some(y)) => {
                if x >= y {
                    Some(x)
                } else {
                    Some(y)
                }
            },
            (Some(x), None) => Some(x),
            (None, score) => score,
        };
    }
    top
}

/// The best score is one of the scores, and none is better.
pub proof fn law_best_score_is_the_best(scores: Seq<Option<u32>>, n: int)
    requires
        0 <= n <= scores.len(),
    ensures
        match best(scores, n) {
            Some(top) => (exists|i: int| 0 <= i < n && #[trigger] scores[i] == Some(top)) && forall|
                i: int,
            |
                0 <= i < n ==> (#[trigger] scores[i] matches Some(score) ==> score <= top),
            None => forall|i: int| 0 <= i < n ==> #[trigger] scores[i] is None,
        },
    decreases n,
{
    if n > 0 {
        law_best_score_is_the_best(scores, n - 1);
        if best(scores, n) is Some {
            let top = best(scores, n)->0;
            if scores[n - 1] == Some(top) {
            } else {
                let i = choose|i: int| 0 <= i < n - 1 && #[trigger] scores[i] == Some(top);
                assert(scores[i] == Some(top));
            }
        }
    }
}

/// How well an item matches what was typed: as well as the best of what it is
/// found under does.
pub open spec fn item_score(query: Seq<char>, item: RootItem) -> Option<u32> {
    let scores = item.found_under().map_values(|term: Seq<char>| crate::matcher::fuzzy(query, term));
    best(scores, scores.len() as int)
}

/// Whether what an item is found under is short enough to be matched.
pub open spec fn matchable(item: RootItem) -> bool {
    forall|i: int|
        0 <= i < item.found_under().len() ==> (#[trigger] item.found_under()[i]).len() <= MAX_TERM
}

/// How well an item matches what was typed; see [`item_score`].
pub fn score_item(query: &str, item: &RootItem) -> (r: Option<u32>)
    requires
        query@.len() <= MAX_QUERY,
        matchable(*item),
    ensures
        r == item_score(query@, *item),
{
    let terms = item.terms();
    let ghost under = item.found_under();
    let mut scores: Vec<Option<u32>> = Vec::new();
    for i in 0..terms.len()
        invariant
            query@.len() <= MAX_QUERY,
            matchable(*item),
            under == item.found_under(),
            under == crate::text::views(terms@),
            scores@ == under.take(i as int).map_values(|term: Seq<char>| crate::matcher::fuzzy(query@, term)),
    {
        assert(under[i as int] == terms@[i as int]@);
        scores.push(fuzzy_score(query, &terms[i]));
        assert(scores@ =~= under.take(i + 1).map_values(|term: Seq<char>| crate::matcher::fuzzy(query@, term)));
    }
    assert(under.take(under.len() as int) =~= under);
    best_score(&scores)
}

/// The scores of items.
pub open spec fn item_scores(query: Seq<char>, items: Seq<RootItem>) -> Seq<Option<u32>> {
    items.map_values(|item: RootItem| item_score(query, item))
}

/// Finds the items that match what was typed, with their scores. Nothing typed
/// means that there is nothing to search for, and every item is shown.
pub fn find_matches(query: &str, items: &Vec<RootItem>) -> (r: Option<Vec<(usize, u32)>>)
    requires
        query@.len() <= MAX_QUERY,
        forall|i: int| 0 <= i < items@.len() ==> matchable(#[trigger] items@[i]),
    ensures
        match r {
            Some(found) => query@.len() > 0 && found@ == crate::matcher::scored(
                item_scores(query@, items@),
                items@.len() as int,
            ),
            None => query@.len() == 0,
        },
{
    if query.is_empty() {
        return None;
    }
    let mut scores: Vec<Option<u32>> = Vec::new();
    for i in 0..items.len()
        invariant
            query@.len() <= MAX_QUERY,
            forall|j: int| 0 <= j < items@.len() ==> matchable(#[trigger] items@[j]),
            scores@ == item_scores(query@, items@.take(i as int)),
    {
        scores.push(score_item(query, &items[i]));
        assert(scores@ =~= item_scores(query@, items@.take(i + 1)));
    }
    assert(items@.take(items@.len() as int) =~= items@);
    Some(collect_matches(&scores))
}

/// How often something was launched, and when last.
#[derive(Debug)]
pub struct Launches {
    pub key: String,
    pub count: u32,
    pub last: u64,
}

/// The launches that were counted under a key, from `from` on; none if there are
/// none.
pub open spec fn launches_of(launches: Seq<Launches>, from: int, key: Seq<char>) -> (u32, u64)
    decreases launches.len() - from,
{
    if from >= launches.len() {
        (0, 0)
    } else if launches[from].key@ == key {
        (launches[from].count, launches[from].last)
    } else {
        launches_of(launches, from + 1, key)
    }
}

/// Looks up the launches of an item.
fn find_launches(launches: &Vec<Launches>, key: &str) -> (r: (u32, u64))
    ensures
        r == launches_of(launches@, 0, key@),
{
    let mut i: usize = 0;
    while i < launches.len()
        invariant
            i <= launches@.len(),
            launches_of(launches@, 0, key@) == launches_of(launches@, i as int, key@),
        decreases launches@.len() - i,
    {
        if same(&launches[i].key, key) {
            return (launches[i].count, launches[i].last);
        }
        i = i + 1;
    }
    (0, 0)
}

/// What items that match equally well are ordered by: what was launched more
/// often comes first, and of those what was launched later.
pub fn rank_items(items: &Vec<RootItem>, launches: &Vec<Launches>) -> (r: Vec<(u32, u64)>)
    ensures
        r@ == items@.map_values(|item: RootItem| launches_of(launches@, 0, item.key())),
{
    let mut out: Vec<(u32, u64)> = Vec::new();
    for i in 0..items.len()
        invariant
            out@ == items@.take(i as int).map_values(
                |item: RootItem| launches_of(launches@, 0, item.key()),
            ),
    {
        let key = items[i].id();
        out.push(find_launches(launches, &key));
        assert(out@ =~= items@.take(i + 1).map_values(
            |item: RootItem| launches_of(launches@, 0, item.key()),
        ));
    }
    assert(items@.take(items@.len() as int) =~= items@);
    out
}

/// Whether an item is the panel that goes by an id.
pub open spec fn is_panel(item: RootItem, panel: Seq<char>) -> bool {
    match item {
        RootItem::Panel { id, .. } => id@ == panel,
        RootItem::App { .. } => false,
    }
}

/// The position at or after `from` of the panel that goes by an id.
pub open spec fn panel_from(items: Seq<RootItem>, from: int, panel: Seq<char>) -> Option<int>
    decreases items.len() - from,
{
    if from >= items.len() {
        None
    } else if is_panel(items[from], panel) {
        Some(from)
    } else {
        panel_from(items, from + 1, panel)
    }
}

/// The position of the panel that goes by an id.
pub fn find_panel(items: &Vec<RootItem>, panel: &str) -> (r: Option<usize>)
    ensures
        match r {
            Some(i) => i < items@.len() && panel_from(items@, 0, panel@) == Some(i as int),
            None => panel_from(items@, 0, panel@) is None,
        },
{
    let mut i: usize = 0;
    while i < items.len()
        invariant
            i <= items@.len(),
            panel_from(items@, 0, panel@) == panel_from(items@, i as int, panel@),
        decreases items@.len() - i,
    {
        if let RootItem::Panel { id, .. } = &items[i] {
            if same(id, panel) {
                return Some(i);
            }
        }
        i = i + 1;
    }
    None
}

/// A moment: whole seconds since 1970, and nanoseconds.
pub open spec fn moment(seconds: int, nanos: int) -> (i64, u32) {
    (seconds as i64, nanos as u32)
}

/// The moment that a number stands for, by how long it is: ten characters count
/// seconds, thirteen milliseconds, nineteen nanoseconds. The nanoseconds of a
/// negative number come out past any that a second has, unless there are none.
pub open spec fn moment_of(number: int, length: int) -> Option<(i64, u32)> {
    if length == 10 {
        Some(moment(number, 0))
    } else if length == 13 {
        Some(moment(number / 1000, (number % 1000) * 1_000_000))
    } else if length == 19 {
        if number >= 0 {
            Some(moment(number / 1_000_000_000, number % 1_000_000_000))
        } else {
            let rest = (-number) % 1_000_000_000;
            Some(
                moment(
                    -((-number) / 1_000_000_000),
                    if rest == 0 {
                        0
                    } else {
                        0x1_0000_0000 - rest
                    },
                ),
            )
        }
    } else {
        None
    }
}

/// The moment that what was typed stands for, if it does: a number on its own, of
/// one of three lengths.
pub open spec fn typed_moment(query: Seq<char>) -> Option<(i64, u32)> {
    let text = crate::text::trimmed(query);
    match crate::number::signed(text) {
        Some(number) => moment_of(number, crate::utf8::bytes(text)),
        None => None,
    }
}

/// Reads what was typed as a moment; see [`typed_moment`].
pub fn parse_timestamp(query: &str) -> (r: Option<(i64, u32)>)
    ensures
        r == typed_moment(query@),
{
    let text = trim(query);
    let length = byte_len(&text);
    let v = chars_of(&text);
    let (magnitude, negative): (u64, bool) = match read_signed(&v) {
        Some(number) => number,
        None => {
            return None;
        },
    };
    if length == 10 {
        let seconds: i64 = negate(magnitude, negative);
        Some((seconds, 0))
    } else if length == 13 {
        let (whole, rest): (u64, u64) = (magnitude / 1000, magnitude % 1000);
        if !negative {
            Some((whole as i64, (rest * 1_000_000) as u32))
        } else if rest == 0 {
            assert((-(magnitude as int)) / 1000 == -(whole as int));
            assert((-(magnitude as int)) % 1000 == 0);
            Some((negate(whole, true), 0))
        } else {
            assert((-(magnitude as int)) / 1000 == -(whole as int) - 1);
            assert((-(magnitude as int)) % 1000 == 1000 - rest);
            Some((negate(whole + 1, true), ((1000 - rest) * 1_000_000) as u32))
        }
    } else if length == 19 {
        let whole: u64 = magnitude / 1_000_000_000;
        let rest: u64 = magnitude % 1_000_000_000;
        let nanos: u64 = if !negative || rest == 0 {
            rest
        } else {
            0x1_0000_0000 - rest
        };
        Some((negate(whole, negative), nanos as u32))
    } else {
        None
    }
}

/// A magnitude with its sign.
fn negate(magnitude: u64, negative: bool) -> (r: i64)
    requires
        negative ==> magnitude <= 0x8000_0000_0000_0000,
        !negative ==> magnitude <= 0x7fff_ffff_ffff_ffff,
    ensures
        r == (if negative {
            -(magnitude as int)
        } else {
            magnitude as int
        }),
{
    if negative {
        (-(magnitude as i128)) as i64
    } else {
        magnitude as i64
    }
}

/// What is typed as a timestamp is within some three hundred years of 1970, so that
/// whether there is such a moment is up to its nanoseconds alone.
pub proof fn law_timestamps_are_near(query: Seq<char>)
    ensures
        typed_moment(query) matches Some((seconds, nanos)) ==> {
            &&& -10_000_000_000 < seconds < 10_000_000_000
            &&& crate::moment::has_moment(seconds, nanos) <==> nanos < 1_000_000_000
        },
{
    let text = crate::text::trimmed(query);
    crate::utf8::lemma_bytes_at_least(text);
    let length = crate::utf8::bytes(text);
    if crate::number::signed(text) is Some {
        let number = crate::number::signed(text)->0;
        let signs = text.len() > 0 && (text[0] == '-' || text[0] == '+');
        let run = if signs {
            text.skip(1)
        } else {
            text
        };
        crate::number::lemma_digits_bound(run);
        assert(-0x8000_0000_0000_0000 <= number <= 0x7fff_ffff_ffff_ffff);
        if length == 10 {
            crate::number::lemma_ten_grows(run.len() as int, 10);
            assert(crate::number::ten(10) == 10_000_000_000) by {
                reveal_with_fuel(crate::number::ten, 11);
            }
            assert(-10_000_000_000 < number < 10_000_000_000);
        } else if length == 13 {
            crate::number::lemma_ten_grows(run.len() as int, 13);
            assert(crate::number::ten(13) == 10_000_000_000_000) by {
                reveal_with_fuel(crate::number::ten, 14);
            }
            if number < 0 {
                crate::number::lemma_ten_grows(run.len() as int, 12);
                assert(crate::number::ten(12) == 1_000_000_000_000) by {
                    reveal_with_fuel(crate::number::ten, 13);
                }
            }
            assert(-10_000_000_000 < number / 1000 < 10_000_000_000);
        } else if length == 19 {
            if number < 0 {
                assert(0 <= (-number) / 1_000_000_000 < 10_000_000_000);
            } else {
                assert(0 <= number / 1_000_000_000 < 10_000_000_000);
            }
        }
    }
}

/// What is shown for what was typed, if it stands for a moment, in a place that is
/// `offset` seconds east of UTC at that moment.
pub fn try_parse_timestamp(query: &str, offset: i32) -> (r: Option<String>)
    ensures
        crate::text::opt_view(r) == (match typed_moment(query@) {
            Some((seconds, nanos)) => if crate::moment::has_place(seconds, nanos, offset) {
                Some(
                        crate::moment::date_text(
                            seconds,
                            nanos,
                            offset,
                            "%A, %Y-%m-%d %H:%M:%S %Z"@,
                        ),
                    )
            } else {
                None
            },
            None => None,
        }),
{
    match parse_timestamp(query) {
        Some((seconds, nanos)) => {
            format_moment(seconds, nanos, offset, "%A, %Y-%m-%d %H:%M:%S %Z")
        },
        None => None,
    }
}

/// How many points there are among the first `n` characters.
pub open spec fn points(s: Seq<char>, n: int) -> int
    decreases n,
{
    if n <= 0 {
        0
    } else {
        points(s, n - 1) + (if s[n - 1] == '.' {
            1int
        } else {
            0
        })
    }
}

/// A text without a sign at its front.
pub open spec fn unsigned(s: Seq<char>) -> Seq<char> {
    if s.len() > 0 && (s[0] == '-' || s[0] == '+') {
        s.skip(1)
    } else {
        s
    }
}

/// Whether a text is a number on its own: digits with at most one point among them,
/// after a sign if there is one.
pub open spec fn plain_number(s: Seq<char>) -> bool {
    let run = unsigned(s);
    &&& forall|i: int| 0 <= i < run.len() ==> '0' <= #[trigger] run[i] <= '9' || run[i] == '.'
    &&& exists|i: int| 0 <= i < run.len() && '0' <= #[trigger] run[i] <= '9'
    &&& points(run, run.len() as int) <= 1
}

fn is_plain_number(v: &Vec<char>) -> (r: bool)
    ensures
        r == plain_number(v@),
{
    let start: usize = if v.len() > 0 && (v[0] == '-' || v[0] == '+') {
        1
    } else {
        0
    };
    let ghost run = unsigned(v@);
    assert(run =~= v@.skip(start as int));
    let mut digits: bool = false;
    let mut count: usize = 0;
    let mut i: usize = start;
    while i < v.len()
        invariant
            start <= i <= v@.len(),
            run == v@.skip(start as int),
            run == unsigned(v@),
            count <= i - start,
            count == points(run, i - start),
            forall|j: int|
                0 <= j < i - start ==> '0' <= #[trigger] run[j] <= '9' || run[j] == '.',
            digits == exists|j: int| 0 <= j < i - start && '0' <= #[trigger] run[j] <= '9',
        decreases v@.len() - i,
    {
        let c = v[i];
        assert(c == run[i - start]);
        if '0' <= c && c <= '9' {
            digits = true;
        } else if c == '.' {
            count = count + 1;
        } else {
            return false;
        }
        i = i + 1;
    }
    digits && count <= 1
}

/// Whether there was something to compute in what was typed, given what it came to: it
/// was not a number on its own, and it is not just what came back.
pub fn is_computation(query: &str, main: &str) -> (r: bool)
    ensures
        r == (!plain_number(crate::text::trimmed(query@)) && main@ != crate::text::trimmed(
            query@,
        )),
{
    let text = trim(query);
    let v = chars_of(&text);
    !is_plain_number(&v) && !same(main, &text)
}

/// What the calculator made of what was typed.
#[derive(Debug)]
pub struct Calculation {
    pub main: String,
    /// Whether there was something to compute; see [`is_computation`].
    pub computes: bool,
    /// Whether there is nothing to show.
    pub empty: bool,
}

/// The answers that typing alone can give, shown above the list.
#[derive(Debug)]
pub struct InlineResults {
    timestamp: Option<String>,
    calculation: Option<String>,
}

impl InlineResults {
    /// The moment that was typed.
    pub closed spec fn moment(&self) -> Option<Seq<char>> {
        crate::text::opt_view(self.timestamp)
    }

    /// What was calculated.
    pub closed spec fn value(&self) -> Option<Seq<char>> {
        crate::text::opt_view(self.calculation)
    }

    pub fn new() -> (r: Self)
        ensures
            r.moment() is None,
            r.value() is None,
    {
        InlineResults { timestamp: None, calculation: None }
    }

    /// Takes in what is typed: what was shown before goes. Says whether a
    /// calculation is to be started.
    pub fn update(&mut self, query: &str, offset: i32) -> (r: bool)
        ensures
            r == (query@.len() > 0),
            final(self).value() is None,
            final(self).moment() == (match typed_moment(query@) {
                Some((seconds, nanos)) => if crate::moment::has_place(seconds, nanos, offset) {
                    Some(
                        crate::moment::date_text(
                            seconds,
                            nanos,
                            offset,
                            "%A, %Y-%m-%d %H:%M:%S %Z"@,
                        ),
                    )
                } else {
                    None
                },
                None => None,
            }),
    {
        self.calculation = None;
        self.timestamp = try_parse_timestamp(query, offset);
        !query.is_empty()
    }

    /// Takes in what came of the calculation. Nothing where it failed.
    pub fn calculated(&mut self, outcome: Option<Calculation>)
        ensures
            final(self).moment() == old(self).moment(),
            final(self).value() == (match outcome {
                Some(c) => if c.computes && !c.empty {
                    Some(c.main@)
                } else {
                    old(self).value()
                },
                None => old(self).value(),
            }),
    {
        if let Some(outcome) = outcome {
            if outcome.computes && !outcome.empty {
                self.calculation = Some(outcome.main);
            }
        }
    }

    /// What is shown: the moment if one was typed, else what was calculated.
    pub fn shown(&self) -> (r: Option<&String>)
        ensures
            match r {
                Some(text) => Some(text@) == (if self.moment() is Some {
                    self.moment()
                } else {
                    self.value()
                }),
                None => self.moment() is None && self.value() is None,
            },
    {
        match &self.timestamp {
            Some(text) => Some(text),
            None => match &self.calculation {
                Some(text) => Some(text),
                None => None,
            },
        }
    }
}

/// What picking an item leads to.
#[derive(Clone, Copy, Debug, PartialEq, Eq, Structural)]
pub enum Launch {
    /// Start the application; the launcher closes if that goes well.
    Start,
    /// Show the panel, and empty the search field behind it.
    ShowPanel,
}

/// Which panel of the launcher is shown, by its position among the items.
#[derive(Debug)]
pub struct Launcher {
    active_panel: Option<usize>,
}

impl Launcher {
    /// The panel that is shown.
    pub closed spec fn panel(&self) -> Option<usize> {
        self.active_panel
    }

    /// A launcher, on the panel that was named if there is one of that name.
    pub fn new(items: &Vec<RootItem>, panel: Option<&str>) -> (r: Self)
        ensures
            match panel {
                Some(name) => match r.panel() {
                    Some(i) => i < items@.len() && panel_from(items@, 0, name@) == Some(i as int),
                    None => panel_from(items@, 0, name@) is None,
                },
                None => r.panel() is None,
            },
    {
        match panel {
            Some(name) => Launcher { active_panel: find_panel(items, name) },
            None => Launcher { active_panel: None },
        }
    }

    pub fn active_panel(&self) -> (r: Option<usize>)
        ensures
            r == self.panel(),
    {
        self.active_panel
    }

    /// Whether the list of items has the focus: it does unless a panel is shown.
    pub fn focuses_list(&self) -> (r: bool)
        ensures
            r == (self.panel() is None),
    {
        self.active_panel.is_none()
    }

    /// An item was picked: its launch is counted under its key, and it is started or
    /// shown.
    pub fn launch(&mut self, index: usize, item: &RootItem) -> (r: (String, Launch))
        ensures
            r.0@ == item.key(),
            match *item {
                RootItem::App { .. } => r.1 == Launch::Start && final(self).panel() == old(
                    self,
                ).panel(),
                RootItem::Panel { .. } => r.1 == Launch::ShowPanel && final(self).panel() == Some(
                    index,
                ),
            },
    {
        let key = item.id();
        match item {
            RootItem::App { .. } => (key, Launch::Start),
            RootItem::Panel { .. } => {
                self.active_panel = Some(index);
                (key, Launch::ShowPanel)
            },
        }
    }

    /// Goes back from a panel to the list. Says whether there was one to go back from.
    pub fn go_back(&mut self) -> (r: bool)
        ensures
            r == (old(self).panel() is Some),
            final(self).panel() is None,
    {
        let shown: bool = self.active_panel.is_some();
        self.active_panel = None;
        shown
    }
}

/// An item is told by its kind and its own id, so that no two of them share a key.
pub proof fn law_keys_are_ids(a: &RootItem, b: &RootItem)
    requires
        a.key() == b.key(),
    ensures
        match (a, b) {
            (RootItem::App { appid: x, .. }, RootItem::App { appid: y, .. }) => x@ == y@,
            (RootItem::Panel { id: x, .. }, RootItem::Panel { id: y, .. }) => x@ == y@,
            _ => false,
        },
        a is App ==> "app:"@.is_prefix_of(a.key()),
        a is Panel ==> "panel:"@.is_prefix_of(a.key()),
{
    if a is App && b is Panel {
        a.law_keys_tell_kinds_apart(b);
    }
    if b is App && a is Panel {
        b.law_keys_tell_kinds_apart(a);
    }
    match (a, b) {
        (RootItem::App { appid: x, .. }, RootItem::App { appid: y, .. }) => {
            let n = "app:"@.len() as int;
            assert(a.key().skip(n) =~= x@);
            assert(b.key().skip(n) =~= y@);
            assert(a.key().subrange(0, n) =~= "app:"@);
        },
        (RootItem::Panel { id: x, .. }, RootItem::Panel { id: y, .. }) => {
            let n = "panel:"@.len() as int;
            assert(a.key().skip(n) =~= x@);
            assert(b.key().skip(n) =~= y@);
            assert(a.key().subrange(0, n) =~= "panel:"@);
        },
        _ => {},
    }
}

/// An application is found under its id, its name, its generic name and each of its
/// categories, and under nothing else.
pub proof fn law_apps_are_found_under_all_their_names(item: &RootItem, term: Seq<char>)
    requires
        item is App,
    ensures
        item.found_under().contains(term) <==> (term == item->appid@ || crate::text::opt_view(
            item->app_name,
        ) == Some(term) || crate::text::opt_view(item->generic_name) == Some(term)
            || crate::text::views(item->categories@).contains(term)),
{
    let names = crate::text::opt_view(item->app_name);
    let generic = crate::text::opt_view(item->generic_name);
    let categories = crate::text::views(item->categories@);
    let a = seq![item->appid@];
    let b = a + optional(names);
    let c = b + optional(generic);
    let all = item.found_under();
    assert(all =~= c + categories);
    lemma_contains_concat(a, optional(names), term);
    lemma_contains_concat(b, optional(generic), term);
    lemma_contains_concat(c, categories, term);
    lemma_one(item->appid@, term);
    if names is Some {
        lemma_one(names->0, term);
    }
    if generic is Some {
        lemma_one(generic->0, term);
    }
}

/// A panel is found under its name and each of its terms, and under nothing else.
pub proof fn law_panels_are_found_under_all_their_terms(item: &RootItem, term: Seq<char>)
    requires
        item is Panel,
    ensures
        item.found_under().contains(term) <==> (term == item->name@ || crate::text::views(
            item->terms@,
        ).contains(term)),
{
    lemma_contains_concat(seq![item->name@], crate::text::views(item->terms@), term);
    lemma_one(item->name@, term);
}

proof fn lemma_one(only: Seq<char>, term: Seq<char>)
    ensures
        seq![only].contains(term) <==> term == only,
{
    assert(seq![only][0] == only);
}

proof fn lemma_contains_concat(a: Seq<Seq<char>>, b: Seq<Seq<char>>, x: Seq<char>)
    ensures
        (a + b).contains(x) <==> a.contains(x) || b.contains(x),
{
    let all = a + b;
    if a.contains(x) {
        let i = choose|i: int| 0 <= i < a.len() && a[i] == x;
        assert(all[i] == x);
    }
    if b.contains(x) {
        let i = choose|i: int| 0 <= i < b.len() && b[i] == x;
        assert(all[a.len() + i] == x);
    }
    if all.contains(x) {
        let i = choose|i: int| 0 <= i < all.len() && all[i] == x;
        if i < a.len() {
            assert(a[i] == x);
        } else {
            assert(b[i - a.len()] == x);
        }
    }
}

/// An item matches exactly if one of the terms that it is found under does, and it scores as
/// its best term, none of them left out.
pub proof fn law_items_score_as_their_best_term(query: Seq<char>, item: RootItem)
    ensures
        item_score(query, item) is None <==> forall|i: int|
            0 <= i < item.found_under().len() ==> crate::matcher::fuzzy(
                query,
                #[trigger] item.found_under()[i],
            ) is None,
        item_score(query, item) matches Some(score) ==> (exists|i: int|
            0 <= i < item.found_under().len() && crate::matcher::fuzzy(
                query,
                #[trigger] item.found_under()[i],
            ) == Some(score)) && (forall|i: int|
            0 <= i < item.found_under().len() ==> (crate::matcher::fuzzy(
                query,
                #[trigger] item.found_under()[i],
            ) matches Some(other) ==> other <= score)),
{
    let terms = item.found_under();
    let scores = terms.map_values(|term: Seq<char>| crate::matcher::fuzzy(query, term));
    law_best_score_is_the_best(scores, scores.len() as int);
    assert forall|i: int| 0 <= i < terms.len() implies crate::matcher::fuzzy(
        query,
        #[trigger] terms[i],
    ) == scores[i] by {}
    if let Some(top) = item_score(query, item) {
        let k = choose|k: int| 0 <= k < scores.len() && scores[k] == Some(top);
        assert(crate::matcher::fuzzy(query, terms[k]) == Some(top));
    } else {
        assert forall|i: int| 0 <= i < terms.len() implies crate::matcher::fuzzy(
            query,
            #[trigger] terms[i],
        ) is None by {
            assert(scores[i] is None);
        }
    }
}

/// Every item that matches what was typed is found, however many there are, and nothing else
/// is.
pub proof fn law_all_matching_items_are_found(
    query: Seq<char>,
    items: Seq<RootItem>,
    i: usize,
    score: u32,
)
    requires
        items.len() <= usize::MAX,
    ensures
        crate::matcher::scored(item_scores(query, items), items.len() as int).contains(
            (i, score),
        ) <==> (i < items.len() && item_score(query, items[i as int]) == Some(score)),
{
    let scores = item_scores(query, items);
    let all = crate::matcher::scored(scores, items.len() as int);
    crate::matcher::law_matches_are_in_order(scores, items.len() as int);
    if all.contains((i, score)) {
        let k = choose|k: int| 0 <= k < all.len() && all[k] == (i, score);
        assert(all[k].0 < items.len());
    }
    if i < items.len() && item_score(query, items[i as int]) == Some(score) {
        crate::matcher::law_every_match_is_listed(scores, items.len() as int, i as int, score);
    }
}

proof fn lemma_launches_of(launches: Seq<Launches>, from: int, key: Seq<char>, i: int)
    requires
        0 <= from <= i < launches.len(),
        launches[i].key@ == key,
        forall|j: int| from <= j < i ==> (#[trigger] launches[j]).key@ != key,
    ensures
        launches_of(launches, from, key) == (launches[i].count, launches[i].last),
    decreases i - from,
{
    if from < i {
        assert(launches[from].key@ != key);
        lemma_launches_of(launches, from + 1, key, i);
    }
}

proof fn lemma_no_launches(launches: Seq<Launches>, from: int, key: Seq<char>)
    requires
        0 <= from,
        forall|j: int| from <= j < launches.len() ==> (#[trigger] launches[j]).key@ != key,
    ensures
        launches_of(launches, from, key) == (0u32, 0u64),
    decreases launches.len() - from,
{
    if from < launches.len() {
        assert(launches[from].key@ != key);
        lemma_no_launches(launches, from + 1, key);
    }
}

/// An item is ranked by how often it was launched, then by when last, as its record says; one
/// without a record ranks below every other.
pub proof fn law_items_are_ranked_by_their_launches(launches: Seq<Launches>, i: int, key: Seq<char>)
    requires
        0 <= i < launches.len(),
        forall|j: int| 0 <= j < i ==> (#[trigger] launches[j]).key@ != launches[i].key@,
    ensures
        launches_of(launches, 0, launches[i].key@) == (launches[i].count, launches[i].last),
        (forall|j: int| 0 <= j < launches.len() ==> (#[trigger] launches[j]).key@ != key)
            ==> launches_of(launches, 0, key) == (0u32, 0u64),
{
    lemma_launches_of(launches, 0, launches[i].key@, i);
    if forall|j: int| 0 <= j < launches.len() ==> (#[trigger] launches[j]).key@ != key {
        lemma_no_launches(launches, 0, key);
    }
}

proof fn lemma_panel_from(items: Seq<RootItem>, from: int, panel: Seq<char>)
    requires
        0 <= from,
    ensures
        match panel_from(items, from, panel) {
            Some(i) => from <= i < items.len() && is_panel(items[i], panel) && forall|j: int|
                from <= j < i ==> !is_panel(#[trigger] items[j], panel),
            None => forall|j: int|
                from <= j < items.len() ==> !is_panel(#[trigger] items[j], panel),
        },
    decreases items.len() - from,
{
    if from < items.len() && !is_panel(items[from], panel) {
        lemma_panel_from(items, from + 1, panel);
    }
}

/// A panel is opened by its id if there is one with it, and an application never is.
pub proof fn law_panels_are_found_by_their_id(items: Seq<RootItem>, panel: Seq<char>)
    ensures
        panel_from(items, 0, panel) is Some <==> exists|i: int|
            0 <= i < items.len() && (#[trigger] items[i]) is Panel && items[i]->id@ == panel,
        panel_from(items, 0, panel) matches Some(i) ==> 0 <= i < items.len() && items[i] is Panel
            && items[i]->id@ == panel,
{
    lemma_panel_from(items, 0, panel);
    if let Some(i) = panel_from(items, 0, panel) {
        assert(items[i] is Panel);
    }
    if exists|i: int|
        0 <= i < items.len() && (#[trigger] items[i]) is Panel && items[i]->id@ == panel {
        let i = choose|i: int|
            0 <= i < items.len() && (#[trigger] items[i]) is Panel && items[i]->id@ == panel;
        assert(is_panel(items[i], panel));
    }
}

/// Ten digits are seconds, thirteen are milliseconds and nineteen are nanoseconds, and other
/// numbers are no times.
pub proof fn law_times_are_told_by_their_length(seconds: int, part: int, number: int, length: int)
    requires
        i64::MIN <= seconds <= i64::MAX,
    ensures
        moment_of(seconds, 10) == Some((seconds as i64, 0u32)),
        0 <= part < 1000 ==> moment_of(seconds * 1000 + part, 13) == Some(
            (seconds as i64, (part * 1_000_000) as u32),
        ),
        0 <= seconds && 0 <= part < 1_000_000_000 ==> moment_of(
            seconds * 1_000_000_000 + part,
            19,
        ) == Some((seconds as i64, part as u32)),
        length != 10 && length != 13 && length != 19 ==> moment_of(number, length) is None,
{
}

/// White space around a time that was typed makes no difference, and what is no number is no
/// time.
pub proof fn law_typed_times_are_trimmed(before: Seq<char>, text: Seq<char>, after: Seq<char>)
    requires
        crate::text::all_white(before),
        crate::text::all_white(after),
        text.len() > 0,
        !crate::text::white_space(text[0]),
        !crate::text::white_space(text.last()),
    ensures
        typed_moment(before + text + after) == typed_moment(text),
        crate::number::signed(text) is None ==> typed_moment(text) is None,
        crate::number::signed(text) matches Some(number) ==> typed_moment(text) == moment_of(
            number,
            crate::utf8::bytes(text),
        ),
{
    let none = Seq::<char>::empty();
    crate::text::law_trimming_takes_only_the_ends(before, text, after);
    crate::text::law_trimming_takes_only_the_ends(none, text, none);
    assert(none + text + none =~= text);
}

/// Whether a text is nothing but digits.
pub open spec fn all_digits(s: Seq<char>) -> bool {
    forall|i: int| 0 <= i < s.len() ==> '0' <= #[trigger] s[i] <= '9'
}

proof fn lemma_points(a: Seq<char>, b: Seq<char>, n: int)
    requires
        0 <= n <= b.len(),
    ensures
        points(a + b, a.len() + n) == points(a, a.len() as int) + points(b, n),
        0 <= points(b, n),
    decreases n,
{
    if n > 0 {
        lemma_points(a, b, n - 1);
        assert((a + b)[a.len() + n - 1] == b[n - 1]);
    } else {
        lemma_points_prefix(a, b, a.len() as int);
    }
}

proof fn lemma_points_prefix(a: Seq<char>, b: Seq<char>, n: int)
    requires
        0 <= n <= a.len(),
    ensures
        points(a + b, n) == points(a, n),
        points(a, n) >= 0,
    decreases n,
{
    if n > 0 {
        lemma_points_prefix(a, b, n - 1);
        assert((a + b)[n - 1] == a[n - 1]);
    }
}

proof fn lemma_no_points(s: Seq<char>, n: int)
    requires
        0 <= n <= s.len(),
        all_digits(s),
    ensures
        points(s, n) == 0,
    decreases n,
{
    if n > 0 {
        lemma_no_points(s, n - 1);
        assert('0' <= s[n - 1] <= '9');
    }
}

/// Digits, with a point among them or without, and with a sign in front or without, are a
/// number on its own.
pub proof fn law_numbers_on_their_own(sign: Seq<char>, whole: Seq<char>, part: Seq<char>)
    requires
        sign.len() == 0 || sign == seq!['-'] || sign == seq!['+'],
        all_digits(whole),
        all_digits(part),
        whole.len() > 0,
    ensures
        plain_number(sign + whole),
        plain_number(sign + (whole + seq!['.'] + part)),
{
    assert('0' <= whole[0] <= '9');
    let with = whole + seq!['.'] + part;
    if sign.len() == 0 {
        assert(sign + whole =~= whole);
        assert(sign + with =~= with);
    } else {
        assert((sign + whole).skip(1) =~= whole);
        assert((sign + with).skip(1) =~= with);
    }
    assert(with[0] == whole[0]);
    lemma_no_points(whole, whole.len() as int);
    lemma_no_points(part, part.len() as int);
    lemma_points(whole + seq!['.'], part, part.len() as int);
    lemma_points(whole, seq!['.'], 1);
    reveal_with_fuel(points, 2);
    assert forall|i: int| 0 <= i < with.len() implies '0' <= #[trigger] with[i] <= '9' || with[i]
        == '.' by {
        if i < whole.len() {
            assert(with[i] == whole[i]);
        } else if i > whole.len() {
            assert(with[i] == part[i - whole.len() - 1]);
        }
    }
    assert(unsigned(sign + whole) == whole);
    assert(points(whole, whole.len() as int) == 0);
    assert forall|i: int| 0 <= i < whole.len() implies '0' <= #[trigger] whole[i] <= '9' by {}
    assert(plain_number(sign + whole));
    assert(unsigned(sign + with) == with);
    assert('0' <= with[0] <= '9');
    assert(points(with, with.len() as int) == 1);
}

/// Anything else that was typed is more than a number: with any other character in it, or
/// without a digit.
pub proof fn law_other_texts_are_no_numbers(s: Seq<char>, i: int)
    requires
        0 <= i < s.len(),
    ensures
        !('0' <= s[i] <= '9') && s[i] != '.' && (i > 0 || (s[i] != '-' && s[i] != '+'))
            ==> !plain_number(s),
        (forall|k: int| 0 <= k < s.len() ==> !('0' <= #[trigger] s[k] <= '9')) ==> !plain_number(s),
{
    let run = unsigned(s);
    if run == s {
    } else {
        assert(run =~= s.skip(1));
        if i > 0 {
            assert(run[i - 1] == s[i]);
        }
    }
    if plain_number(s) {
        let k = choose|k: int| 0 <= k < run.len() && '0' <= #[trigger] run[k] <= '9';
        if run.len() < s.len() {
            assert(s[k + 1] == run[k]);
        }
    }
}

} // verus!
