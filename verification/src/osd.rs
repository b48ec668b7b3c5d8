//! The surface that notifications are shown on.

use vstd::prelude::*;

verus! {

/// How long changes are gathered before they are shown, in milliseconds.
///
/// A burst of notifications (e.g. several `notify-send`s at once) produces a rapid
/// sequence of change events. Coalescing them into one avoids redundant content
/// updates while the burst is still arriving.
pub const SYNC_DEBOUNCE: u64 = 50;

/// Something to do for the surface.
#[derive(Clone, Copy, Debug, PartialEq, Eq, Structural)]
pub enum OsdAction {
    Nothing,
    /// Give a window other notifications to show.
    Update { window: u64 },
    /// Open a window on a display.
    Open { display: u64 },
    /// Say that there is no display to show notifications on.
    NoDisplay,
    Close { window: u64 },
    /// Let a window take clicks from its top down to a height, and none below.
    SetInputRegion { window: u64, height: u32 },
}

/// The window that notifications are shown in, while there is one.
#[derive(Clone, Copy, Debug, PartialEq, Eq, Structural)]
pub struct NotificationOsd {
    pub window: Option<u64>,
}

/// What is done without a window: one is opened once there is something to show.
pub open spec fn opening(has_active: bool, display: Option<u64>) -> OsdAction {
    if !has_active {
        OsdAction::Nothing
    } else {
        match display {
            Some(display) => OsdAction::Open { display },
            None => OsdAction::NoDisplay,
        }
    }
}

fn open_surface(has_active: bool, display: Option<u64>) -> (r: OsdAction)
    ensures
        r == opening(has_active, display),
{
    if !has_active {
        return OsdAction::Nothing;
    }
    match display {
        Some(display) => OsdAction::Open { display },
        None => OsdAction::NoDisplay,
    }
}

impl NotificationOsd {
    pub fn new() -> (r: Self)
        ensures
            r.window is None,
    {
        NotificationOsd { window: None }
    }

    /// Brings the surface up to date.
    pub fn sync(&self, has_active: bool, display: Option<u64>) -> (r: OsdAction)
        ensures
            r == (match self.window {
                Some(window) => OsdAction::Update { window },
                None => opening(has_active, display),
            }),
    {
        match self.window {
            Some(window) => OsdAction::Update { window },
            None => open_surface(has_active, display),
        }
    }

    /// The window was given other notifications, or is gone: then another is opened.
    pub fn updated(&mut self, ok: bool, has_active: bool, display: Option<u64>) -> (r: OsdAction)
        ensures
            ok ==> r == OsdAction::Nothing && *final(self) == *old(self),
            !ok ==> r == opening(has_active, display) && final(self).window is None,
    {
        if ok {
            return OsdAction::Nothing;
        }
        self.window = None;
        open_surface(has_active, display)
    }

    /// A window was opened, or could not be.
    pub fn opened(&mut self, window: Option<u64>)
        ensures
            final(self).window == (match window {
                Some(window) => Some(window),
                None => old(self).window,
            }),
    {
        if window.is_some() {
            self.window = window;
        }
    }

    /// The configuration has changed: the window is closed, so that another opens where
    /// it belongs now. What is done next is what is done without a window.
    pub fn reload_display(&mut self, has_active: bool, display: Option<u64>) -> (r: (
        OsdAction,
        OsdAction,
    ))
        ensures
            final(self).window is None,
            r.0 == (match old(self).window {
                Some(window) => OsdAction::Close { window },
                None => OsdAction::Nothing,
            }),
            r.1 == opening(has_active, display),
    {
        let close = match self.window {
            Some(window) => OsdAction::Close { window },
            None => OsdAction::Nothing,
        };
        self.window = None;
        (close, open_surface(has_active, display))
    }

    /// The cards reach down to a height, or the last one has left: then the window is
    /// closed.
    pub fn report_region(&mut self, height: Option<u32>) -> (r: OsdAction)
        ensures
            match (old(self).window, height) {
                (Some(window), Some(height)) => r == (OsdAction::SetInputRegion { window, height })
                    && *final(self) == *old(self),
                (Some(window), None) => r == (OsdAction::Close { window })
                    && final(self).window is None,
                (None, _) => r == OsdAction::Nothing && *final(self) == *old(self),
            },
    {
        match (self.window, height) {
            (Some(window), Some(height)) => OsdAction::SetInputRegion { window, height },
            (Some(window), None) => {
                self.window = None;
                OsdAction::Close { window }
            },
            (None, _) => OsdAction::Nothing,
        }
    }

    /// Whether the region could be set. A window that is gone is dropped, so that
    /// another opens.
    pub fn region_set(&mut self, ok: bool)
        ensures
            final(self).window == (if ok {
                old(self).window
            } else {
                None
            }),
    {
        if !ok {
            self.window = None;
        }
    }
}

/// The top and the bottom of a card, in the units it is laid out in.
#[derive(Clone, Copy, Debug, PartialEq, Eq, Structural)]
pub struct CardBounds {
    pub top: i32,
    pub bottom: i32,
}

/// Whether no card among the first `n` begins above `top`, and one begins there.
pub open spec fn is_top(cards: Seq<CardBounds>, n: int, top: i32) -> bool {
    &&& forall|i: int| 0 <= i < n ==> top <= (#[trigger] cards[i]).top
    &&& exists|i: int| 0 <= i < n && (#[trigger] cards[i]).top == top
}

/// Whether no card among the first `n` ends below `bottom`, and one ends there.
pub open spec fn is_bottom(cards: Seq<CardBounds>, n: int, bottom: i32) -> bool {
    &&& forall|i: int| 0 <= i < n ==> (#[trigger] cards[i]).bottom <= bottom
    &&& exists|i: int| 0 <= i < n && (#[trigger] cards[i]).bottom == bottom
}

/// The total height that the cards span, from the top of the first to the bottom of
/// the last, in whatever order they come. `None` without cards.
pub fn stack_height(cards: &Vec<CardBounds>) -> (r: Option<i64>)
    ensures
        match r {
            Some(height) => exists|top: i32, bottom: i32|
                #![trigger is_top(cards@, cards@.len() as int, top), is_bottom(cards@, cards@.len() as int, bottom)]
                is_top(cards@, cards@.len() as int, top) && is_bottom(
                    cards@,
                    cards@.len() as int,
                    bottom,
                ) && height == bottom - top,
            None => cards@.len() == 0,
        },
{
    if cards.len() == 0 {
        return None;
    }
    let mut top: i32 = cards[0].top;
    let mut bottom: i32 = cards[0].bottom;
    let mut n: usize = 1;
    assert(is_top(cards@, 1, top) && is_bottom(cards@, 1, bottom));
    while n < cards.len()
        invariant
            1 <= n <= cards@.len(),
            is_top(cards@, n as int, top),
            is_bottom(cards@, n as int, bottom),
        decreases cards@.len() - n,
    {
        let card = cards[n];
        if card.top < top {
            top = card.top;
            assert(cards@[n as int].top == top);
        }
        if card.bottom > bottom {
            bottom = card.bottom;
            assert(cards@[n as int].bottom == bottom);
        }
        n = n + 1;
    }
    Some(bottom as i64 - top as i64)
}

/// The extent of the cards that was reported last, which keeps the frames of an
/// animation from reporting it again and again.
#[derive(Clone, Copy, Debug, PartialEq, Eq, Structural)]
pub struct ReportedRegion {
    /// `None` before the first report. An empty stack is reported without a height.
    pub last: Option<Option<u32>>,
}

impl ReportedRegion {
    /// Nothing has been reported.
    pub fn new() -> (r: Self)
        ensures
            r.last is None,
    {
        ReportedRegion { last: None }
    }

    /// Takes in what the cards span now. Says whether that is to be reported.
    pub fn changed(&mut self, region: Option<u32>) -> (r: bool)
        ensures
            r == (old(self).last != Some(region)),
            final(self).last == Some(region),
    {
        let same = match (self.last, region) {
            (Some(Some(last)), Some(now)) => last == now,
            (Some(None), None) => true,
            _ => false,
        };
        self.last = Some(region);
        !same
    }
}

/// A surface opens when, and only when, there is something to show and a display to show it
/// on; with something to show and no display, that is reported.
pub proof fn law_surfaces_open_for_notifications(has_active: bool, display: Option<u64>)
    ensures
        opening(has_active, display) is Nothing <==> !has_active,
        opening(has_active, display) is NoDisplay <==> has_active && display is None,
        opening(has_active, display) is Open <==> has_active && display is Some,
        has_active ==> (display matches Some(shown) ==> opening(has_active, display) == (
        OsdAction::Open { display: shown })),
{
}

/// The ends of a stack are the ends of its cards: there is one highest top and one lowest
/// bottom, and every card lies between them.
pub proof fn law_the_stack_spans_its_cards(
    cards: Seq<CardBounds>,
    top: i32,
    bottom: i32,
    other: i32,
    i: int,
)
    requires
        is_top(cards, cards.len() as int, top),
        is_bottom(cards, cards.len() as int, bottom),
        0 <= i < cards.len(),
    ensures
        top <= cards[i].top,
        cards[i].bottom <= bottom,
        is_top(cards, cards.len() as int, other) ==> other == top,
        is_bottom(cards, cards.len() as int, other) ==> other == bottom,
{
}

/// The card that no card stands above has the top of the stack, and the one that no card
/// reaches below has its bottom, wherever they are in the list.
pub proof fn law_the_outermost_cards_bound_the_stack(cards: Seq<CardBounds>, k: int)
    requires
        0 <= k < cards.len(),
    ensures
        is_top(cards, cards.len() as int, cards[k].top) <==> forall|i: int|
            0 <= i < cards.len() ==> cards[k].top <= (#[trigger] cards[i]).top,
        is_bottom(cards, cards.len() as int, cards[k].bottom) <==> forall|i: int|
            0 <= i < cards.len() ==> (#[trigger] cards[i]).bottom <= cards[k].bottom,
{
}

} // verus!
