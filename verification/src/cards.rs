//! The cards that show notifications on screen: the layout each gets, the text
//! it shows, and how the stack of them follows the live notifications.

use vstd::prelude::*;

use crate::body::{single_line, single_line_body, Body};
use crate::notification::{Notification, NotificationAction, NotificationView};
use crate::number::decimal;
use crate::text::{chars_of, same};

verus! {

/// The visual layouts a notification can be rendered with.
#[derive(Clone, Copy, Debug, PartialEq, Eq, Structural)]
pub enum NotificationLayout {
    /// A single short row: icon, title over a one-line detail, inline actions.
    Compact,
    /// A messaging-style card: avatar, app name with timestamp, title, body, and
    /// optional action buttons.
    Message,
    /// A now-playing card: cover art on top, then label, title, subtitle, and
    /// optional action buttons.
    Media,
}

/// A rule mapping a notification onto a layout. The pattern is tested against
/// both the app name and the summary; the rule applies if either matches.
#[derive(Debug)]
pub struct LayoutRule {
    pub pattern: String,
    pub layout: NotificationLayout,
}

/// Whether a regular expression matches somewhere in a text, or nothing where
/// the expression is not well-formed: what `regex::Regex::new` and
/// `regex::Regex::is_match` make of them.
pub uninterp spec fn regex_match(pattern: Seq<char>, text: Seq<char>) -> Option<bool>;

/// `regex::Regex::new` reads the pattern, and `Regex::is_match` then looks for a
/// match anywhere in the text.
#[verifier::external_body]
fn regex_is_match(pattern: &str, text: &str) -> (r: Option<bool>)
    ensures
        r == regex_match(pattern@, text@),
{
    regex::Regex::new(pattern).ok().map(|regex| regex.is_match(text))
}

/// Whether a rule's pattern matches a notification. A pattern that is not
/// well-formed matches nothing.
pub open spec fn rule_applies(pattern: Seq<char>, app_name: Seq<char>, summary: Seq<char>) -> bool {
    regex_match(pattern, app_name) == Some(true) || regex_match(pattern, summary) == Some(true)
}

impl LayoutRule {
    pub fn matches(&self, notification: &Notification) -> (r: bool)
        ensures
            r == rule_applies(self.pattern@, notification.app_name@, notification.summary@),
    {
        let app_name = regex_is_match(&self.pattern, &notification.app_name);
        let summary = regex_is_match(&self.pattern, &notification.summary);
        either_matches(app_name, summary)
    }
}

/// Whether one of two attempts to match succeeded.
pub fn either_matches(app_name: Option<bool>, summary: Option<bool>) -> (r: bool)
    ensures
        r == (app_name == Some(true) || summary == Some(true)),
{
    let app_name = match app_name {
        Some(hit) => hit,
        None => false,
    };
    let summary = match summary {
        Some(hit) => hit,
        None => false,
    };
    app_name || summary
}

/// The rules, in the order in which they are tried, as pairs of a pattern and a
/// layout.
pub open spec fn layout_rules() -> Seq<(Seq<char>, NotificationLayout)> {
    seq![
        // Screenshot tools announce a saved or captured shot: a small toast.
        ("(?i)screenshot"@, NotificationLayout::Compact),
        // Chat applications get the messaging layout.
        ("(?i)\\b(telegram|discord|slack|signal|whatsapp)\\b"@, NotificationLayout::Message),
        // A summary or an application naming a layout selects it.
        ("(?i)\\bcompact\\b"@, NotificationLayout::Compact),
        ("(?i)\\bmessage\\b"@, NotificationLayout::Message),
        ("(?i)\\bmedia\\b"@, NotificationLayout::Media),
    ]
}

/// Rules as pairs of a pattern and a layout.
pub open spec fn rule_views(rules: Seq<LayoutRule>) -> Seq<(Seq<char>, NotificationLayout)> {
    rules.map_values(|r: LayoutRule| (r.pattern@, r.layout))
}

/// The rules, in the order in which they are tried.
pub fn build_layout_rules() -> (r: Vec<LayoutRule>)
    ensures
        rule_views(r@) == layout_rules(),
{
    let mut out: Vec<LayoutRule> = Vec::new();
    out.push(
        LayoutRule { pattern: "(?i)screenshot".to_owned(), layout: NotificationLayout::Compact },
    );
    out.push(
        LayoutRule {
            pattern: "(?i)\\b(telegram|discord|slack|signal|whatsapp)\\b".to_owned(),
            layout: NotificationLayout::Message,
        },
    );
    out.push(
        LayoutRule { pattern: "(?i)\\bcompact\\b".to_owned(), layout: NotificationLayout::Compact },
    );
    out.push(
        LayoutRule { pattern: "(?i)\\bmessage\\b".to_owned(), layout: NotificationLayout::Message },
    );
    out.push(
        LayoutRule { pattern: "(?i)\\bmedia\\b".to_owned(), layout: NotificationLayout::Media },
    );
    assert(rule_views(out@) =~= layout_rules());
    out
}

/// The layout of the first rule from `from` on that applies; compact if none
/// does. Most notifications are simple toasts, which read best compact.
pub open spec fn layout_by(
    rules: Seq<(Seq<char>, NotificationLayout)>,
    from: int,
    app_name: Seq<char>,
    summary: Seq<char>,
) -> NotificationLayout
    decreases rules.len() - from,
{
    if from >= rules.len() {
        NotificationLayout::Compact
    } else if rule_applies(rules[from].0, app_name, summary) {
        rules[from].1
    } else {
        layout_by(rules, from + 1, app_name, summary)
    }
}

/// The layout that a notification gets.
pub fn pick_layout(notification: &Notification) -> (r: NotificationLayout)
    ensures
        r == layout_by(layout_rules(), 0, notification.app_name@, notification.summary@),
{
    let rules = build_layout_rules();
    let ghost views = rule_views(rules@);
    let mut i: usize = 0;
    while i < rules.len()
        invariant
            i <= rules@.len(),
            views == rule_views(rules@),
            views == layout_rules(),
            layout_by(views, 0, notification.app_name@, notification.summary@) == layout_by(
                views,
                i as int,
                notification.app_name@,
                notification.summary@,
            ),
        decreases rules@.len() - i,
    {
        assert(views[i as int] == (rules@[i as int].pattern@, rules@[i as int].layout));
        if rules[i].matches(notification) {
            return rules[i].layout;
        }
        i = i + 1;
    }
    NotificationLayout::Compact
}

/// A notification's text with every hard line break removed.
#[derive(Debug)]
pub struct CardText {
    pub app_name: String,
    pub summary: String,
    pub body: Body,
}

/// Flattening a text without emphasis brings none in.
proof fn lemma_flat_unmarked(s: Seq<char>)
    ensures
        crate::body::flat_styled(crate::body::marked(s, crate::body::unmarked()))
            == crate::body::marked(crate::body::flat(s), crate::body::unmarked()),
    decreases s.len(),
{
    let u = crate::body::unmarked();
    let m = crate::body::marked(s, u);
    if s.len() > 0 {
        lemma_flat_unmarked(s.drop_last());
        assert(m.drop_last() =~= crate::body::marked(s.drop_last(), u));
        crate::body::lemma_run_start(m.drop_last());
        assert(crate::body::flat_styled(m) =~= crate::body::marked(crate::body::flat(s), u));
    } else {
        assert(crate::body::flat_styled(m) =~= crate::body::marked(crate::body::flat(s), u));
    }
}

impl CardText {
    pub fn new(notification: &Notification) -> (r: Self)
        ensures
            r.app_name@ == crate::body::flat(notification.app_name@),
            r.summary@ == crate::body::flat(notification.summary@),
            r.body.wf(),
            r.body.styled() == crate::body::marked(
                crate::body::flat(notification.body@),
                crate::body::unmarked(),
            ),
    {
        let plain = Body::plain(notification.body.clone());
        proof {
            assert(plain.styled() =~= crate::body::marked(
                notification.body@,
                crate::body::unmarked(),
            ));
            lemma_flat_unmarked(notification.body@);
        }
        CardText {
            app_name: single_line(&notification.app_name),
            summary: single_line(&notification.summary),
            body: single_line_body(&plain),
        }
    }
}

/// A notification as the stack tracks it, including ones that have been
/// dismissed but are still playing their exit animation.
#[derive(Debug)]
pub struct CardState {
    pub notification: Notification,
    /// Resolved once when the card is created or refreshed.
    pub layout: NotificationLayout,
    /// The notification's display text, flattened alongside `layout`.
    pub text: CardText,
    /// True once dismissed: the card stays in the stack until
    /// [`NotificationsView::remove_card`] drops it.
    pub leaving: bool,
}

impl CardState {
    /// Whether the layout and the text are those of the notification.
    pub open spec fn wf(&self) -> bool {
        &&& self.layout == layout_by(
            layout_rules(),
            0,
            self.notification.app_name@,
            self.notification.summary@,
        )
        &&& self.text.app_name@ == crate::body::flat(self.notification.app_name@)
        &&& self.text.summary@ == crate::body::flat(self.notification.summary@)
        &&& self.text.body.wf()
        &&& self.text.body.styled() == crate::body::marked(
            crate::body::flat(self.notification.body@),
            crate::body::unmarked(),
        )
    }

    pub fn new(notification: Notification) -> (r: Self)
        ensures
            r.wf(),
            r.notification == notification,
            !r.leaving,
    {
        let layout = pick_layout(&notification);
        let text = CardText::new(&notification);
        CardState { notification, layout, text, leaving: false }
    }
}

/// What a card shows, and whether it is leaving.
pub open spec fn shown(cards: Seq<CardState>) -> Seq<(NotificationView, bool)> {
    cards.map_values(|c: CardState| (c.notification@, c.leaving))
}

/// The last of the first `n` live notifications that goes by `id`.
pub open spec fn live_among(active: Seq<NotificationView>, n: int, id: u32) -> Option<
    NotificationView,
>
    decreases n,
{
    if n <= 0 {
        None
    } else if active[n - 1].id == id {
        Some(active[n - 1])
    } else {
        live_among(active, n - 1, id)
    }
}

/// The live notification that goes by `id`; the last one, should there be several.
pub open spec fn live(active: Seq<NotificationView>, id: u32) -> Option<NotificationView> {
    live_among(active, active.len() as int, id)
}

/// Whether no card above the `j`th goes by the same id.
pub open spec fn is_first(cards: Seq<(NotificationView, bool)>, j: int) -> bool {
    forall|i: int| 0 <= i < j ==> (#[trigger] cards[i]).0.id != cards[j].0.id
}

/// The `j`th card once the stack has followed the live notifications: it shows the live
/// notification with its id, or is leaving if there is none. Should several cards go by
/// that id, the first one shows it, and the others stay as they are.
pub open spec fn refreshed(
    cards: Seq<(NotificationView, bool)>,
    j: int,
    active: Seq<NotificationView>,
) -> (NotificationView, bool) {
    match live(active, cards[j].0.id) {
        Some(notification) => if is_first(cards, j) {
            (notification, false)
        } else {
            cards[j]
        },
        None => (cards[j].0, true),
    }
}

/// The cards there were, each once the stack has followed the live notifications.
pub open spec fn kept_cards(
    cards: Seq<(NotificationView, bool)>,
    active: Seq<NotificationView>,
) -> Seq<(NotificationView, bool)> {
    Seq::new(cards.len(), |j: int| refreshed(cards, j, active))
}

/// Whether a card shows a notification that goes by `id`.
pub open spec fn carded(cards: Seq<(NotificationView, bool)>, id: u32) -> bool {
    exists|i: int| 0 <= i < cards.len() && (#[trigger] cards[i]).0.id == id
}

/// The live notifications that have no card yet, in order.
pub open spec fn arrivals(
    active: Seq<NotificationView>,
    cards: Seq<(NotificationView, bool)>,
) -> Seq<(NotificationView, bool)>
    decreases active.len(),
{
    if active.len() == 0 {
        Seq::empty()
    } else if carded(cards, active[0].id) {
        arrivals(active.skip(1), cards)
    } else {
        seq![(active[0], false)] + arrivals(active.skip(1), cards)
    }
}

/// The stack once it has followed the live notifications: what has newly arrived
/// on top, then the cards there were, each in its place.
pub open spec fn followed(
    cards: Seq<(NotificationView, bool)>,
    active: Seq<NotificationView>,
) -> Seq<(NotificationView, bool)> {
    arrivals(active, cards) + kept_cards(cards, active)
}

/// The ids of the cards among the first `n` that the live notifications have
/// left, and that were not leaving already.
pub open spec fn departures(
    cards: Seq<(NotificationView, bool)>,
    n: int,
    active: Seq<NotificationView>,
) -> Seq<u32>
    decreases n,
{
    if n <= 0 {
        Seq::empty()
    } else {
        let before = departures(cards, n - 1, active);
        if live(active, cards[n - 1].0.id) is None && !cards[n - 1].1 {
            before.push(cards[n - 1].0.id)
        } else {
            before
        }
    }
}

/// The ids of the cards among the first `n` that were leaving and show a live
/// notification again.
pub open spec fn returns_of(
    cards: Seq<(NotificationView, bool)>,
    n: int,
    active: Seq<NotificationView>,
) -> Seq<u32>
    decreases n,
{
    if n <= 0 {
        Seq::empty()
    } else {
        let before = returns_of(cards, n - 1, active);
        if live(active, cards[n - 1].0.id) is Some && cards[n - 1].1 && is_first(cards, n - 1) {
            before.push(cards[n - 1].0.id)
        } else {
            before
        }
    }
}

/// The removals that have to be set going, and those that have to be called off.
#[derive(Debug)]
pub struct Removals {
    pub arm: Vec<u32>,
    pub cancel: Vec<u32>,
}

/// The stack of cards, from the top.
#[derive(Debug)]
pub struct NotificationsView {
    cards: Vec<CardState>,
}

/// The index of a live notification; see [`live`].
fn find_live(active: &Vec<Notification>, id: u32) -> (r: Option<usize>)
    ensures
        match r {
            Some(i) => i < active@.len() && live(
                crate::notification::notification_views(active@),
                id,
            ) == Some(active@[i as int]@),
            None => live(crate::notification::notification_views(active@), id) is None,
        },
{
    let ghost views = crate::notification::notification_views(active@);
    let mut i: usize = active.len();
    while i > 0
        invariant
            i <= active@.len(),
            views == crate::notification::notification_views(active@),
            live(views, id) == live_among(views, i as int, id),
        decreases i,
    {
        i = i - 1;
        if active[i].id == id {
            return Some(i);
        }
    }
    None
}

impl NotificationsView {
    /// The cards, from the top.
    pub closed spec fn stack(&self) -> Seq<CardState> {
        self.cards@
    }

    /// Every card shows its notification the way it should.
    pub open spec fn wf(&self) -> bool {
        forall|i: int| 0 <= i < self.stack().len() ==> (#[trigger] self.stack()[i]).wf()
    }

    /// One card for each notification.
    pub fn new(items: &Vec<Notification>) -> (r: Self)
        ensures
            r.wf(),
            shown(r.stack()) == crate::notification::notification_views(items@).map_values(
                |n: NotificationView| (n, false),
            ),
    {
        let mut cards: Vec<CardState> = Vec::new();
        for i in 0..items.len()
            invariant
                cards@.len() == i,
                forall|j: int|
                    0 <= j < i ==> (#[trigger] cards@[j]).wf() && cards@[j].notification@
                        == items@[j]@ && !cards@[j].leaving,
        {
            cards.push(CardState::new(items[i].clone()));
        }
        let r = NotificationsView { cards };
        assert(shown(r.stack()) =~= crate::notification::notification_views(items@).map_values(
            |n: NotificationView| (n, false),
        ));
        r
    }

    /// The cards, from the top.
    pub fn cards(&self) -> (r: &Vec<CardState>)
        ensures
            r@ == self.stack(),
    {
        &self.cards
    }

    /// Reconciles the cards against the live set: refreshes those still present,
    /// marks those that vanished as leaving (keeping them in the stack), and puts
    /// new arrivals on top, newest first.
    pub fn update_content(&mut self, active: &Vec<Notification>) -> (r: Removals)
        requires
            old(self).wf(),
        ensures
            final(self).wf(),
            ({
                let live_ones = crate::notification::notification_views(active@);
                let before = shown(old(self).stack());
                &&& shown(final(self).stack()) == followed(before, live_ones)
                &&& r.arm@ == departures(before, before.len() as int, live_ones)
                &&& r.cancel@ == returns_of(before, before.len() as int, live_ones)
            }),
    {
        let ghost live_ones = crate::notification::notification_views(active@);
        let ghost before = shown(self.cards@);
        let ghost kept = kept_cards(before, live_ones);
        let mut arm: Vec<u32> = Vec::new();
        let mut cancel: Vec<u32> = Vec::new();
        let n: usize = self.cards.len();
        let mut old_ids: Vec<u32> = Vec::new();
        let mut i: usize = 0;
        assert forall|j: int| 0 <= j < n implies (#[trigger] self.cards@[j]).wf() by {
            assert(self.stack()[j].wf());
        }
        while i < n
            invariant
                i <= n,
                n == self.cards@.len(),
                n == before.len(),
                live_ones == crate::notification::notification_views(active@),
                kept == kept_cards(before, live_ones),
                old_ids@.len() == i,
                forall|j: int| 0 <= j < i ==> #[trigger] old_ids@[j] == before[j].0.id,
                forall|j: int| 0 <= j < n ==> (#[trigger] self.cards@[j]).wf(),
                forall|j: int|
                    0 <= j < i ==> kept[j] == ((#[trigger] self.cards@[j]).notification@,
                    self.cards@[j].leaving),
                forall|j: int|
                    i <= j < n ==> before[j] == ((#[trigger] self.cards@[j]).notification@,
                    self.cards@[j].leaving),
                arm@ == departures(before, i as int, live_ones),
                cancel@ == returns_of(before, i as int, live_ones),
            decreases n - i,
        {
            let id: u32 = self.cards[i].notification.id;
            let was_leaving: bool = self.cards[i].leaving;
            assert(before[i as int] == (self.cards@[i as int].notification@, was_leaving));
            let repeated: bool = known(&old_ids, id);
            proof {
                assert(repeated == !is_first(before, i as int)) by {
                    if repeated {
                        let j = choose|j: int| 0 <= j < old_ids@.len() && old_ids@[j] == id;
                        assert(before[j].0.id == before[i as int].0.id);
                    } else {
                        assert forall|j: int| 0 <= j < i implies (
                        #[trigger] before[j]).0.id != before[i as int].0.id by {
                            assert(old_ids@[j] == before[j].0.id);
                        }
                    }
                }
            }
            old_ids.push(id);
            match find_live(active, id) {
                Some(k) => {
                    if !repeated {
                        if was_leaving {
                            cancel.push(id);
                        }
                        let card = CardState::new(active[k].clone());
                        self.cards.set(i, card);
                    }
                },
                None => {
                    if !was_leaving {
                        arm.push(id);
                        let mut card = CardState::new(self.cards[i].notification.clone());
                        card.leaving = true;
                        self.cards.set(i, card);
                    }
                },
            }
            i = i + 1;
        }
        assert(shown(self.cards@) =~= kept);
        let mut at: usize = active.len();
        assert(live_ones.skip(at as int) =~= Seq::<NotificationView>::empty());
        assert(arrivals(live_ones.skip(at as int), before) + kept =~= kept);
        while at > 0
            invariant
                at <= active@.len(),
                live_ones == crate::notification::notification_views(active@),
                old_ids@.len() == before.len(),
                forall|j: int| 0 <= j < before.len() ==> #[trigger] old_ids@[j] == before[j].0.id,
                forall|j: int|
                    0 <= j < self.cards@.len() ==> (#[trigger] self.cards@[j]).wf(),
                shown(self.cards@) == arrivals(live_ones.skip(at as int), before) + kept,
            decreases at,
        {
            at = at - 1;
            let ghost rest = live_ones.skip(at as int);
            let ghost was = shown(self.cards@);
            assert(rest.skip(1) =~= live_ones.skip(at + 1));
            assert(rest[0] == active@[at as int]@);
            let id: u32 = active[at].id;
            if !known(&old_ids, id) {
                proof {
                    assert forall|j: int| 0 <= j < before.len() implies (
                    #[trigger] before[j]).0.id != id by {
                        assert(old_ids@[j] == before[j].0.id);
                    }
                }
                let card = CardState::new(active[at].clone());
                let ghost top = (card.notification@, card.leaving);
                self.cards.insert(0, card);
                assert(shown(self.cards@) =~= seq![top] + was);
                assert(seq![top] + (arrivals(rest.skip(1), before) + kept) =~= (seq![top]
                    + arrivals(rest.skip(1), before)) + kept);
            } else {
                proof {
                    let j = choose|j: int| 0 <= j < old_ids@.len() && old_ids@[j] == id;
                    assert(before[j].0.id == id);
                }
            }
        }
        assert(live_ones.skip(0) =~= live_ones);
        Removals { arm, cancel }
    }

    /// Drops a card once its exit animation has finished, collapsing the stack.
    pub fn remove_card(&mut self, id: u32)
        requires
            old(self).wf(),
        ensures
            final(self).wf(),
            shown(final(self).stack()) == shown(old(self).stack()).filter(
                |c: (NotificationView, bool)| c.0.id != id,
            ),
    {
        let ghost before = self.cards@;
        let ghost keep = |c: (NotificationView, bool)| c.0.id != id;
        let mut i: usize = self.cards.len();
        assert forall|j: int| 0 <= j < self.cards@.len() implies (#[trigger] self.cards@[j]).wf() by {
            assert(self.stack()[j].wf());
        }
        assert(shown(before).skip(i as int) =~= Seq::<(NotificationView, bool)>::empty());
        assert(Seq::<(NotificationView, bool)>::empty().filter(keep) =~= Seq::<
            (NotificationView, bool),
        >::empty()) by {
            reveal(Seq::filter);
        }
        assert(self.cards@ =~= before.take(i as int) + self.cards@.skip(i as int));
        while i > 0
            invariant
                i <= before.len(),
                i <= self.cards@.len(),
                self.cards@.take(i as int) == before.take(i as int),
                keep == |c: (NotificationView, bool)| c.0.id != id,
                shown(self.cards@.skip(i as int)) == shown(before).skip(i as int).filter(keep),
                forall|j: int|
                    0 <= j < self.cards@.len() ==> (#[trigger] self.cards@[j]).wf(),
            decreases i,
        {
            i = i - 1;
            let ghost was = self.cards@;
            let ghost here = shown(before).skip(i as int);
            proof {
                assert(was.take(i + 1)[i as int] == before.take(i + 1)[i as int]);
                assert(here =~= seq![here[0]] + shown(before).skip(i + 1));
                crate::names::lemma_filter_first(here, keep);
                assert(here.skip(1) =~= shown(before).skip(i + 1));
                assert(here[0] == (was[i as int].notification@, was[i as int].leaving));
            }
            if self.cards[i].notification.id == id {
                self.cards.remove(i);
                proof {
                    assert(self.cards@.take(i as int) =~= before.take(i as int)) by {
                        assert(was.take(i as int) =~= was.take(i + 1).take(i as int));
                        assert(before.take(i as int) =~= before.take(i + 1).take(i as int));
                    }
                    assert(self.cards@.skip(i as int) =~= was.skip(i + 1));
                }
            } else {
                proof {
                    assert(was.take(i as int) =~= was.take(i + 1).take(i as int));
                    assert(before.take(i as int) =~= before.take(i + 1).take(i as int));
                    assert(shown(was.skip(i as int)) =~= seq![here[0]] + shown(was.skip(i + 1)));
                }
            }
        }
        assert(self.cards@.skip(0) =~= self.cards@);
        assert(shown(before).skip(0) =~= shown(before));
    }
}

/// Whether an id is in a list.
fn known(ids: &Vec<u32>, id: u32) -> (r: bool)
    ensures
        r == (exists|j: int| 0 <= j < ids@.len() && ids@[j] == id),
{
    let mut i: usize = 0;
    while i < ids.len()
        invariant
            i <= ids@.len(),
            forall|j: int| 0 <= j < i ==> ids@[j] != id,
        decreases ids@.len() - i,
    {
        if ids[i] == id {
            return true;
        }
        i = i + 1;
    }
    false
}

/// A live notification is found under its id.
proof fn lemma_live(active: Seq<NotificationView>, n: int, id: u32)
    requires
        0 <= n <= active.len(),
    ensures
        match live_among(active, n, id) {
            Some(found) => found.id == id && exists|i: int|
                0 <= i < n && #[trigger] active[i] == found,
            None => forall|i: int| 0 <= i < n ==> (#[trigger] active[i]).id != id,
        },
    decreases n,
{
    if n > 0 && active[n - 1].id != id {
        lemma_live(active, n - 1, id);
    } else if n > 0 {
        assert(active[n - 1] == active[n - 1]);
    }
}

/// Whether no two cards go by the same id.
pub open spec fn cards_apart(cards: Seq<(NotificationView, bool)>) -> bool {
    forall|i: int, j: int|
        0 <= i < j < cards.len() ==> (#[trigger] cards[i]).0.id != (#[trigger] cards[j]).0.id
}

/// Whether no two notifications go by the same id.
pub open spec fn ids_apart(active: Seq<NotificationView>) -> bool {
    forall|i: int, j: int|
        0 <= i < j < active.len() ==> (#[trigger] active[i]).id != (#[trigger] active[j]).id
}

/// The first card that goes by an id, given one that does.
proof fn lemma_first_card(cards: Seq<(NotificationView, bool)>, j: int) -> (first: int)
    requires
        0 <= j < cards.len(),
    ensures
        0 <= first <= j,
        cards[first].0.id == cards[j].0.id,
        is_first(cards, first),
    decreases j,
{
    if is_first(cards, j) {
        j
    } else {
        let i = choose|i: int| 0 <= i < j && (#[trigger] cards[i]).0.id == cards[j].0.id;
        lemma_first_card(cards, i)
    }
}

/// A live notification without a card is among the arrivals, and nothing else is.
proof fn lemma_arrivals(active: Seq<NotificationView>, cards: Seq<(NotificationView, bool)>)
    ensures
        forall|i: int|
            0 <= i < active.len() && !carded(cards, (#[trigger] active[i]).id) ==> arrivals(
                active,
                cards,
            ).contains((active[i], false)),
        forall|c: (NotificationView, bool)|
            arrivals(active, cards).contains(c) ==> !c.1 && active.contains(c.0),
    decreases active.len(),
{
    if active.len() > 0 {
        let rest = active.skip(1);
        lemma_arrivals(rest, cards);
        let all = arrivals(active, cards);
        let tail = arrivals(rest, cards);
        assert forall|i: int|
            0 <= i < active.len() && !carded(cards, (#[trigger] active[i]).id) implies all.contains(
            (active[i], false),
        ) by {
            if i == 0 {
                assert(all[0] == (active[0], false));
            } else {
                assert(rest[i - 1] == active[i]);
                assert(tail.contains((active[i], false)));
                let k = choose|k: int| 0 <= k < tail.len() && tail[k] == (active[i], false);
                assert(all[k + all.len() - tail.len()] == (active[i], false));
            }
        }
        assert forall|c: (NotificationView, bool)| all.contains(c) implies !c.1 && active.contains(
            c.0,
        ) by {
            let k = choose|k: int| 0 <= k < all.len() && all[k] == c;
            if !carded(cards, active[0].id) && k == 0 {
                assert(active[0] == c.0);
            } else {
                let j = k - (all.len() - tail.len());
                assert(tail[j] == c);
                assert(tail.contains(c));
                let m = choose|m: int| 0 <= m < rest.len() && rest[m] == c.0;
                assert(active[m + 1] == c.0);
            }
        }
    }
}

/// Every live notification has a card that shows it and is not leaving.
pub proof fn law_live_notifications_are_shown(
    cards: Seq<(NotificationView, bool)>,
    active: Seq<NotificationView>,
    i: int,
)
    requires
        0 <= i < active.len(),
        ids_apart(active),
    ensures
        followed(cards, active).contains((active[i], false)),
{
    let all = followed(cards, active);
    let kept = kept_cards(cards, active);
    let new = arrivals(active, cards);
    lemma_arrivals(active, cards);
    lemma_live(active, active.len() as int, active[i].id);
    if carded(cards, active[i].id) {
        let any = choose|j: int| 0 <= j < cards.len() && (#[trigger] cards[j]).0.id == active[i].id;
        let j = lemma_first_card(cards, any);
        let n = live(active, active[i].id)->0;
        let k = choose|k: int| 0 <= k < active.len() && #[trigger] active[k] == n;
        assert(k == i);
        assert(kept[j] == (active[i], false));
        assert(all[new.len() + j] == (active[i], false));
    } else {
        let k = choose|k: int| 0 <= k < new.len() && new[k] == (active[i], false);
        assert(all[k] == (active[i], false));
    }
}

/// A card that is not leaving shows a live notification: what has been dismissed
/// never stays on screen as if it were still there.
pub proof fn law_only_live_notifications_stay(
    cards: Seq<(NotificationView, bool)>,
    active: Seq<NotificationView>,
    k: int,
)
    requires
        cards_apart(cards),
        0 <= k < followed(cards, active).len(),
        !followed(cards, active)[k].1,
    ensures
        active.contains(followed(cards, active)[k].0),
{
    let all = followed(cards, active);
    let new = arrivals(active, cards);
    lemma_arrivals(active, cards);
    if k < new.len() {
        assert(new[k] == all[k]);
        assert(new.contains(all[k]));
    } else {
        let j = k - new.len();
        assert(all[k] == refreshed(cards, j, active));
        lemma_live(active, active.len() as int, cards[j].0.id);
    }
}

/// Cards stand apart: as long as no two live notifications go by the same id, no two
/// cards do.
pub proof fn law_cards_stand_apart(
    cards: Seq<(NotificationView, bool)>,
    active: Seq<NotificationView>,
)
    requires
        cards_apart(cards),
        ids_apart(active),
    ensures
        cards_apart(followed(cards, active)),
{
    let all = followed(cards, active);
    let new = arrivals(active, cards);
    let kept = kept_cards(cards, active);
    lemma_arrivals_apart(active, cards);
    assert forall|i: int, j: int| 0 <= i < j < all.len() implies (#[trigger] all[i]).0.id != (
    #[trigger] all[j]).0.id by {
        if j < new.len() {
            assert(new[i].0.id != new[j].0.id);
        } else {
            let b = j - new.len();
            lemma_live(active, active.len() as int, cards[b].0.id);
            assert(kept[b].0.id == cards[b].0.id);
            if i < new.len() {
                assert(!carded(cards, new[i].0.id));
            } else {
                let a = i - new.len();
                lemma_live(active, active.len() as int, cards[a].0.id);
                assert(kept[a].0.id == cards[a].0.id);
            }
        }
    }
}

proof fn lemma_arrivals_apart(active: Seq<NotificationView>, cards: Seq<(NotificationView, bool)>)
    requires
        ids_apart(active),
    ensures
        cards_apart(arrivals(active, cards)),
        forall|i: int|
            0 <= i < arrivals(active, cards).len() ==> !carded(
                cards,
                (#[trigger] arrivals(active, cards)[i]).0.id,
            ),
    decreases active.len(),
{
    if active.len() > 0 {
        let rest = active.skip(1);
        assert forall|i: int, j: int| 0 <= i < j < rest.len() implies (#[trigger] rest[i]).id != (
        #[trigger] rest[j]).id by {
            assert(active[i + 1].id != active[j + 1].id);
        }
        lemma_arrivals_apart(rest, cards);
        lemma_arrivals(rest, cards);
        let all = arrivals(active, cards);
        let tail = arrivals(rest, cards);
        if !carded(cards, active[0].id) {
            assert forall|i: int| 0 <= i < all.len() implies !carded(
                cards,
                (#[trigger] all[i]).0.id,
            ) by {
                if i > 0 {
                    assert(all[i] == tail[i - 1]);
                }
            }
            assert forall|i: int, j: int| 0 <= i < j < all.len() implies (
            #[trigger] all[i]).0.id != (#[trigger] all[j]).0.id by {
                assert(all[j] == tail[j - 1]);
                assert(tail.contains(tail[j - 1]));
                if i == 0 {
                    let m = choose|m: int| 0 <= m < rest.len() && rest[m] == tail[j - 1].0;
                    assert(active[0].id != active[m + 1].id);
                } else {
                    assert(all[i] == tail[i - 1]);
                }
            }
        }
    }
}

/// The upper-case form of a character, which may be several: what
/// `char::to_uppercase` gives.
pub uninterp spec fn uppercase_of(c: char) -> Seq<char>;

/// `char::to_uppercase` gives the upper-case form of a character, which may be
/// several.
#[verifier::external_body]
pub(crate) fn uppercase(c: char) -> (r: String)
    ensures
        r@ == uppercase_of(c),
{
    c.to_uppercase().to_string()
}

/// The character that stands in for a missing picture: the first of the
/// application's name, or of the summary if that is empty.
pub open spec fn avatar_char(app_name: Seq<char>, summary: Seq<char>) -> Option<char> {
    if app_name.len() > 0 {
        Some(app_name[0])
    } else if summary.len() > 0 {
        Some(summary[0])
    } else {
        None
    }
}

/// The letter that stands in for a missing picture, in upper case; empty if the
/// notification names neither an application nor a summary.
pub fn avatar_letter(notification: &Notification) -> (r: String)
    ensures
        r@ == (match avatar_char(notification.app_name@, notification.summary@) {
            Some(c) => uppercase_of(c),
            None => Seq::empty(),
        }),
{
    match first_char(&notification.app_name) {
        Some(c) => uppercase(c),
        None => match first_char(&notification.summary) {
            Some(c) => uppercase(c),
            None => String::new(),
        },
    }
}

/// The first character of a text.
pub fn first_char(text: &str) -> (r: Option<char>)
    ensures
        r == (if text@.len() > 0 {
            Some(text@[0])
        } else {
            None
        }),
{
    let v = chars_of(text);
    if v.len() > 0 {
        Some(v[0])
    } else {
        None
    }
}

/// How long ago something was, in words: `now`, `5m`, `2h`, `1d`.
pub open spec fn ago(seconds: int) -> Seq<char> {
    if seconds < 60 {
        "now"@
    } else if seconds < 3600 {
        crate::number::written(seconds / 60, 10).push('m')
    } else if seconds < 86400 {
        crate::number::written(seconds / 3600, 10).push('h')
    } else {
        crate::number::written(seconds / 86400, 10).push('d')
    }
}

/// A short relative time; see [`ago`].
pub fn relative_time(seconds: u64) -> (r: String)
    ensures
        r@ == ago(seconds as int),
{
    if seconds < 60 {
        "now".to_owned()
    } else {
        let (count, unit): (u64, char) = if seconds < 3600 {
            (seconds / 60, 'm')
        } else if seconds < 86400 {
            (seconds / 3600, 'h')
        } else {
            (seconds / 86400, 'd')
        };
        let mut out = decimal(count);
        out.push(unit);
        out
    }
}

/// Whether an action is the one that a click on the card itself invokes.
pub open spec fn is_default(action: NotificationAction) -> bool {
    action.key@ == "default"@
}

/// Whether a click on the card invokes an action, rather than dismissing it.
pub fn has_default(actions: &Vec<NotificationAction>) -> (r: bool)
    ensures
        r == exists|i: int| 0 <= i < actions@.len() && is_default(#[trigger] actions@[i]),
{
    let mut i: usize = 0;
    while i < actions.len()
        invariant
            i <= actions@.len(),
            forall|j: int| 0 <= j < i ==> !is_default(#[trigger] actions@[j]),
        decreases actions@.len() - i,
    {
        if same(&actions[i].key, "default") {
            assert(is_default(actions@[i as int]));
            return true;
        }
        i = i + 1;
    }
    false
}

/// Visual emphasis for an action button.
#[derive(Clone, Copy, Debug, PartialEq, Eq, Structural)]
pub enum ButtonVariant {
    /// Small and label-width, low emphasis (compact layout).
    Compact,
    /// Full-width, low emphasis.
    Secondary,
    /// Full-width, light fill: the primary affordance.
    Primary,
}

/// The positions among the first `n` actions of those that get a button: all but
/// the default one.
pub open spec fn buttons(actions: Seq<NotificationAction>, n: int) -> Seq<usize>
    decreases n,
{
    if n <= 0 {
        Seq::empty()
    } else if is_default(actions[n - 1]) {
        buttons(actions, n - 1)
    } else {
        buttons(actions, n - 1).push((n - 1) as usize)
    }
}

/// The actions that get a small button in the compact layout, by position.
pub fn compact_buttons(actions: &Vec<NotificationAction>) -> (r: Vec<usize>)
    ensures
        r@ == buttons(actions@, actions@.len() as int),
{
    let mut out: Vec<usize> = Vec::new();
    for i in 0..actions.len()
        invariant
            out@ == buttons(actions@, i as int),
    {
        if !same(&actions[i].key, "default") {
            out.push(i);
        }
    }
    out
}

/// The actions that get a full-width button, by position, with the last one
/// emphasized. Used by the message and media layouts.
pub fn prominent_buttons(actions: &Vec<NotificationAction>) -> (r: Vec<(usize, ButtonVariant)>)
    ensures
        r@.len() == buttons(actions@, actions@.len() as int).len(),
        forall|i: int|
            0 <= i < r@.len() ==> #[trigger] r@[i] == (
                buttons(actions@, actions@.len() as int)[i],
                if i == r@.len() - 1 {
                    ButtonVariant::Primary
                } else {
                    ButtonVariant::Secondary
                },
            ),
{
    let which = compact_buttons(actions);
    let n: usize = which.len();
    let mut out: Vec<(usize, ButtonVariant)> = Vec::new();
    for i in 0..n
        invariant
            n == which@.len(),
            which@ == buttons(actions@, actions@.len() as int),
            out@.len() == i,
            forall|j: int|
                0 <= j < i ==> #[trigger] out@[j] == (
                    which@[j],
                    if j == n - 1 {
                        ButtonVariant::Primary
                    } else {
                        ButtonVariant::Secondary
                    },
                ),
    {
        let variant = if i == n - 1 {
            ButtonVariant::Primary
        } else {
            ButtonVariant::Secondary
        };
        out.push((which[i], variant));
    }
    out
}

proof fn lemma_layout_by(
    rules: Seq<(Seq<char>, NotificationLayout)>,
    from: int,
    app_name: Seq<char>,
    summary: Seq<char>,
    i: int,
)
    requires
        0 <= from <= i < rules.len(),
        rule_applies(rules[i].0, app_name, summary),
        forall|j: int|
            from <= j < i ==> !rule_applies((#[trigger] rules[j]).0, app_name, summary),
    ensures
        layout_by(rules, from, app_name, summary) == rules[i].1,
    decreases i - from,
{
    if from < i {
        assert(!rule_applies(rules[from].0, app_name, summary));
        lemma_layout_by(rules, from + 1, app_name, summary, i);
    }
}

/// The first rule that matches a notification decides its layout, whichever come after it.
pub proof fn law_first_rule_decides(
    rules: Seq<(Seq<char>, NotificationLayout)>,
    app_name: Seq<char>,
    summary: Seq<char>,
    i: int,
)
    requires
        0 <= i < rules.len(),
        rule_applies(rules[i].0, app_name, summary),
        forall|j: int| 0 <= j < i ==> !rule_applies((#[trigger] rules[j]).0, app_name, summary),
    ensures
        layout_by(rules, 0, app_name, summary) == rules[i].1,
{
    lemma_layout_by(rules, 0, app_name, summary, i);
}

/// Screenshots are announced compactly, chats as messages, and a notification that names a
/// layout gets it; anything else is compact.
pub proof fn law_layouts_follow_what_is_announced(app_name: Seq<char>, summary: Seq<char>)
    ensures
        ({
            let layout = layout_by(layout_rules(), 0, app_name, summary);
            let shot = rule_applies("(?i)screenshot"@, app_name, summary);
            let chat = rule_applies(
                "(?i)\\b(telegram|discord|slack|signal|whatsapp)\\b"@,
                app_name,
                summary,
            );
            let compact = rule_applies("(?i)\\bcompact\\b"@, app_name, summary);
            let message = rule_applies("(?i)\\bmessage\\b"@, app_name, summary);
            let media = rule_applies("(?i)\\bmedia\\b"@, app_name, summary);
            &&& shot ==> layout == NotificationLayout::Compact
            &&& !shot && chat ==> layout == NotificationLayout::Message
            &&& !shot && !chat && compact ==> layout == NotificationLayout::Compact
            &&& !shot && !chat && !compact && message ==> layout == NotificationLayout::Message
            &&& layout == NotificationLayout::Media <==> !shot && !chat && !compact && !message
                && media
        }),
{
    reveal_with_fuel(layout_by, 6);
}

/// A rule looks at the application and at the summary alike.
pub proof fn law_rules_look_at_both(pattern: Seq<char>, app_name: Seq<char>, summary: Seq<char>)
    ensures
        regex_match(pattern, app_name) == Some(true) ==> rule_applies(pattern, app_name, summary),
        regex_match(pattern, summary) == Some(true) ==> rule_applies(pattern, app_name, summary),
        regex_match(pattern, app_name) != Some(true) && regex_match(pattern, summary) != Some(true)
            ==> !rule_applies(pattern, app_name, summary),
{
}

proof fn lemma_live_among(active: Seq<NotificationView>, n: int, id: u32)
    requires
        0 <= n <= active.len(),
    ensures
        match live_among(active, n, id) {
            Some(found) => exists|k: int|
                0 <= k < n && (#[trigger] active[k]) == found && found.id == id && forall|j: int|
                    k < j < n ==> (#[trigger] active[j]).id != id,
            None => forall|j: int| 0 <= j < n ==> (#[trigger] active[j]).id != id,
        },
    decreases n,
{
    if n > 0 {
        if active[n - 1].id == id {
            assert(active[n - 1] == active[n - 1]);
        } else {
            lemma_live_among(active, n - 1, id);
        }
    }
}

/// A notification that is active is live, and one that is not, is not; of several with one
/// id the last counts.
pub proof fn law_live_means_active(active: Seq<NotificationView>, id: u32)
    ensures
        live(active, id) is Some <==> exists|k: int|
            0 <= k < active.len() && (#[trigger] active[k]).id == id,
        live(active, id) matches Some(found) ==> exists|k: int|
            0 <= k < active.len() && (#[trigger] active[k]) == found && found.id == id && forall|
                j: int,
            |
                k < j < active.len() ==> (#[trigger] active[j]).id != id,
{
    lemma_live_among(active, active.len() as int, id);
}

/// A card whose notification is gone leaves as it was, and one whose notification is there
/// shows it as it is now and stays.
pub proof fn law_cards_follow_their_notifications(
    cards: Seq<(NotificationView, bool)>,
    active: Seq<NotificationView>,
    j: int,
)
    requires
        cards_apart(cards),
        0 <= j < cards.len(),
    ensures
        kept_cards(cards, active).len() == cards.len(),
        kept_cards(cards, active)[j].0.id == cards[j].0.id,
        (forall|k: int| 0 <= k < active.len() ==> (#[trigger] active[k]).id != cards[j].0.id)
            ==> kept_cards(cards, active)[j] == (cards[j].0, true),
        forall|k: int|
            0 <= k < active.len() && (#[trigger] active[k]).id == cards[j].0.id && ids_apart(active)
                ==> kept_cards(cards, active)[j] == (active[k], false),
{
    law_live_means_active(active, cards[j].0.id);
    assert(is_first(cards, j));
}

proof fn lemma_arrivals_are_new(active: Seq<NotificationView>, cards: Seq<(NotificationView, bool)>)
    ensures
        arrivals(active, cards) == active.filter(
            |n: NotificationView| !carded(cards, n.id),
        ).map_values(|n: NotificationView| (n, false)),
    decreases active.len(),
{
    let keep = |n: NotificationView| !carded(cards, n.id);
    let tell = |n: NotificationView| (n, false);
    if active.len() == 0 {
        reveal(Seq::filter);
        assert(active.filter(keep).map_values(tell) =~= Seq::empty());
    } else {
        lemma_arrivals_are_new(active.skip(1), cards);
        crate::names::lemma_filter_first(active, keep);
        if keep(active[0]) {
            assert((seq![active[0]] + active.skip(1).filter(keep)).map_values(tell)
                =~= seq![(active[0], false)] + active.skip(1).filter(keep).map_values(tell));
        } else {
            assert(Seq::<NotificationView>::empty() + active.skip(1).filter(keep)
                =~= active.skip(1).filter(keep));
        }
    }
}

/// What is new comes in front of the cards that are there, in the order in which it is
/// active, the newest first, and the cards keep their order behind it.
pub proof fn law_new_cards_come_first(
    cards: Seq<(NotificationView, bool)>,
    active: Seq<NotificationView>,
)
    ensures
        ({
            let new = active.filter(|n: NotificationView| !carded(cards, n.id));
            let all = followed(cards, active);
            &&& all.len() == new.len() + cards.len()
            &&& forall|i: int| 0 <= i < new.len() ==> #[trigger] all[i] == (new[i], false)
            &&& forall|j: int|
                0 <= j < cards.len() ==> (#[trigger] all[new.len() + j]).0.id == cards[j].0.id
        }),
{
    lemma_arrivals_are_new(active, cards);
    assert forall|j: int| 0 <= j < cards.len() implies kept_cards(cards, active)[j].0.id
        == cards[j].0.id by {
        law_live_means_active(active, cards[j].0.id);
    }
}

/// A card is taken away later exactly if it was staying and its notification is gone.
pub proof fn law_departures_are_what_is_gone(
    cards: Seq<(NotificationView, bool)>,
    n: int,
    active: Seq<NotificationView>,
    id: u32,
)
    requires
        0 <= n <= cards.len(),
    ensures
        departures(cards, n, active).contains(id) <==> (exists|j: int|
            0 <= j < n && (#[trigger] cards[j]).0.id == id && !cards[j].1) && forall|k: int|
            0 <= k < active.len() ==> (#[trigger] active[k]).id != id,
    decreases n,
{
    if n > 0 {
        law_departures_are_what_is_gone(cards, n - 1, active, id);
        let before = departures(cards, n - 1, active);
        let card = cards[n - 1];
        law_live_means_active(active, id);
        law_live_means_active(active, card.0.id);
        let all = departures(cards, n, active);
        assert forall|k: int| 0 <= k < before.len() implies before[k] == #[trigger] all[k] by {}
        if before.contains(id) {
            let k = choose|k: int| 0 <= k < before.len() && before[k] == id;
            assert(all[k] == id);
        }
        if all.contains(id) && !before.contains(id) {
            let k = choose|k: int| 0 <= k < all.len() && all[k] == id;
            assert(k == before.len());
        }
        if card.0.id == id && !card.1 && live(active, id) is None {
            assert(all.last() == id);
        }
    }
}

/// A card is kept after all exactly if it was leaving and its notification is back.
pub proof fn law_returns_are_what_is_back(
    cards: Seq<(NotificationView, bool)>,
    n: int,
    active: Seq<NotificationView>,
    id: u32,
)
    requires
        0 <= n <= cards.len(),
        cards_apart(cards),
    ensures
        returns_of(cards, n, active).contains(id) <==> (exists|j: int|
            0 <= j < n && (#[trigger] cards[j]).0.id == id && cards[j].1) && (exists|k: int|
            0 <= k < active.len() && (#[trigger] active[k]).id == id),
    decreases n,
{
    if n > 0 {
        law_returns_are_what_is_back(cards, n - 1, active, id);
        let before = returns_of(cards, n - 1, active);
        let card = cards[n - 1];
        law_live_means_active(active, id);
        law_live_means_active(active, card.0.id);
        assert(is_first(cards, n - 1));
        let all = returns_of(cards, n, active);
        assert forall|k: int| 0 <= k < before.len() implies before[k] == #[trigger] all[k] by {}
        if before.contains(id) {
            let k = choose|k: int| 0 <= k < before.len() && before[k] == id;
            assert(all[k] == id);
        }
        if all.contains(id) && !before.contains(id) {
            let k = choose|k: int| 0 <= k < all.len() && all[k] == id;
            assert(k == before.len());
        }
        if card.0.id == id && card.1 && live(active, id) is Some {
            assert(all.last() == id);
        }
    }
}

/// The letter of a card is the first of the application's name, or of the summary where the
/// application has none.
pub proof fn law_letters_are_initials(name: Seq<char>, summary: Seq<char>, c: char)
    ensures
        avatar_char(seq![c] + name, summary) == Some(c),
        avatar_char(Seq::empty(), seq![c] + summary) == Some(c),
        avatar_char(Seq::empty(), Seq::empty()) is None,
{
}

/// An age is told in the largest unit of which a whole one has passed, rounded down; under a
/// minute it is now.
pub proof fn law_ages_are_rounded_down(days: int, hours: int, minutes: int, seconds: int)
    requires
        0 <= days,
        0 <= hours < 24,
        0 <= minutes < 60,
        0 <= seconds < 60,
    ensures
        ({
            let age = ago(((days * 24 + hours) * 60 + minutes) * 60 + seconds);
            &&& days > 0 ==> age == crate::number::written(days, 10) + seq!['d']
            &&& days == 0 && hours > 0 ==> age == crate::number::written(hours, 10) + seq!['h']
            &&& days == 0 && hours == 0 && minutes > 0 ==> age == crate::number::written(
                minutes,
                10,
            ) + seq!['m']
            &&& days == 0 && hours == 0 && minutes == 0 ==> age == "now"@
        }),
{
    let total = ((days * 24 + hours) * 60 + minutes) * 60 + seconds;
    assert(total == days * 86400 + hours * 3600 + minutes * 60 + seconds);
    assert(crate::number::written(days, 10).push('d') =~= crate::number::written(days, 10)
        + seq!['d']);
    assert(crate::number::written(hours, 10).push('h') =~= crate::number::written(hours, 10)
        + seq!['h']);
    assert(crate::number::written(minutes, 10).push('m') =~= crate::number::written(minutes, 10)
        + seq!['m']);
}

/// Every action but the default one gets a button, and they come in order.
pub proof fn law_every_other_action_is_a_button(actions: Seq<NotificationAction>, n: int, i: int)
    requires
        0 <= n <= actions.len() <= usize::MAX,
    ensures
        0 <= i < n ==> (buttons(actions, n).contains(i as usize) <==> actions[i].key@
            != "default"@),
        forall|k: int|
            0 <= k < buttons(actions, n).len() ==> (#[trigger] buttons(actions, n)[k]) < n,
        forall|k: int, l: int|
            0 <= k < l < buttons(actions, n).len() ==> (#[trigger] buttons(actions, n)[k]) < (
            #[trigger] buttons(actions, n)[l]),
    decreases n,
{
    if n > 0 {
        law_every_other_action_is_a_button(actions, n - 1, i);
        let before = buttons(actions, n - 1);
        let all = buttons(actions, n);
        if 0 <= i < n - 1 && before.contains(i as usize) {
            let k = choose|k: int| 0 <= k < before.len() && before[k] == i as usize;
            assert(all[k] == i as usize);
        }
        if 0 <= i < n && all.contains(i as usize) {
            let k = choose|k: int| 0 <= k < all.len() && all[k] == i as usize;
            if k < before.len() {
                assert(before[k] == i as usize);
            }
        }
        if i == n - 1 && !is_default(actions[i]) {
            assert(all.last() == i as usize);
        }
    }
}

} // verus!
