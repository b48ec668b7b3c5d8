//! The outputs: which of them something belongs on, and the clock that is drawn
//! there.

use vstd::prelude::*;

use crate::text::same;

verus! {

/// The names of the outputs, as far as they have one.
pub open spec fn display_names(displays: Seq<Option<String>>) -> Seq<Option<Seq<char>>> {
    displays.map_values(|d: Option<String>| crate::text::opt_view(d))
}

/// The position at or after `from` of the output with a name.
pub open spec fn display_from(
    displays: Seq<Option<Seq<char>>>,
    from: int,
    name: Seq<char>,
) -> Option<int>
    decreases displays.len() - from,
{
    if from >= displays.len() {
        None
    } else if displays[from] == Some(name) {
        Some(from)
    } else {
        display_from(displays, from + 1, name)
    }
}

/// Finds the output with a name.
pub fn find_display(displays: &Vec<Option<String>>, name: &str) -> (r: Option<usize>)
    ensures
        match r {
            Some(i) => i < displays@.len() && display_from(display_names(displays@), 0, name@)
                == Some(i as int),
            None => display_from(display_names(displays@), 0, name@) is None,
        },
{
    let ghost names = display_names(displays@);
    let mut i: usize = 0;
    while i < displays.len()
        invariant
            i <= displays@.len(),
            names == display_names(displays@),
            display_from(names, 0, name@) == display_from(names, i as int, name@),
        decreases displays@.len() - i,
    {
        assert(names[i as int] == crate::text::opt_view(displays@[i as int]));
        if let Some(candidate) = &displays[i] {
            if same(candidate, name) {
                return Some(i);
            }
        }
        i = i + 1;
    }
    None
}

/// The first of two names that is given.
pub open spec fn either_name(
    own: Option<Seq<char>>,
    primary: Option<Seq<char>>,
) -> Option<Seq<char>> {
    match own {
        Some(name) => Some(name),
        None => primary,
    }
}

/// The output something belongs on: the one its own setting names, else the
/// primary one, else (or where that is not attached) the first.
pub open spec fn target(
    own: Option<Seq<char>>,
    primary: Option<Seq<char>>,
    displays: Seq<Option<Seq<char>>>,
) -> Option<int> {
    let first = if displays.len() > 0 {
        Some(0int)
    } else {
        None
    };
    match either_name(own, primary) {
        Some(name) => match display_from(displays, 0, name) {
            Some(i) => Some(i),
            None => first,
        },
        None => first,
    }
}

/// The output the login prompt belongs on: as [`target`], but there always is
/// one, for an output may yet be attached.
pub open spec fn prompt_display(
    own: Option<Seq<char>>,
    primary: Option<Seq<char>>,
    displays: Seq<Option<Seq<char>>>,
) -> int {
    match either_name(own, primary) {
        Some(name) => match display_from(displays, 0, name) {
            Some(i) => i,
            None => 0,
        },
        None => 0,
    }
}

/// Something to show is shown whenever there is an output at all, and on one that
/// is attached.
pub proof fn law_target_is_attached(
    own: Option<Seq<char>>,
    primary: Option<Seq<char>>,
    displays: Seq<Option<Seq<char>>>,
)
    ensures
        target(own, primary, displays) is Some <==> displays.len() > 0,
        target(own, primary, displays) matches Some(i) ==> 0 <= i < displays.len(),
{
    match either_name(own, primary) {
        Some(name) => {
            lemma_display_from(displays, 0, name);
        },
        None => {},
    }
}

/// What `display_from` stands for.
pub proof fn lemma_display_from(displays: Seq<Option<Seq<char>>>, from: int, name: Seq<char>)
    requires
        0 <= from,
    ensures
        display_from(displays, from, name) matches Some(i) ==> from <= i < displays.len()
            && displays[i] == Some(name),
    decreases displays.len() - from,
{
    if from < displays.len() && displays[from] != Some(name) {
        lemma_display_from(displays, from + 1, name);
    }
}

/// The output something belongs on; see [`target`].
pub fn target_display(
    own: Option<String>,
    primary: Option<String>,
    displays: &Vec<Option<String>>,
) -> (r: Option<usize>)
    ensures
        match r {
            Some(i) => target(
                crate::text::opt_view(own),
                crate::text::opt_view(primary),
                display_names(displays@),
            ) == Some(i as int),
            None => target(
                crate::text::opt_view(own),
                crate::text::opt_view(primary),
                display_names(displays@),
            ) is None,
        },
{
    let configured = match own {
        Some(name) => Some(name),
        None => primary,
    };
    if let Some(name) = configured {
        if let Some(i) = find_display(displays, &name) {
            return Some(i);
        }
    }
    if displays.len() > 0 {
        Some(0)
    } else {
        None
    }
}

/// The output the clock goes on while the screen is locked. Nothing means every
/// output, which is what happens when none is configured or the configured one
/// isn't attached: a clock nobody asked to hide beats no clock at all.
pub fn clock_display(
    own: Option<String>,
    primary: Option<String>,
    displays: &Vec<Option<String>>,
) -> (r: Option<usize>)
    ensures
        match (either_name(crate::text::opt_view(own), crate::text::opt_view(primary)), r) {
            (Some(name), Some(i)) => display_from(display_names(displays@), 0, name) == Some(
                i as int,
            ),
            (Some(name), None) => display_from(display_names(displays@), 0, name) is None,
            (None, r) => r is None,
        },
{
    let configured = match own {
        Some(name) => Some(name),
        None => primary,
    };
    match configured {
        Some(name) => find_display(displays, &name),
        None => None,
    }
}

/// Whether a locked screen draws the clock on one output, given where the clock
/// goes.
pub fn draws_clock(enabled: bool, clock: Option<usize>, index: usize) -> (r: bool)
    ensures
        r == (enabled && (clock is None || clock == Some(index))),
{
    enabled && match clock {
        Some(i) => i == index,
        None => true,
    }
}

/// The time of day that the clock shows.
#[derive(Clone, Copy, Debug, PartialEq, Eq, Structural)]
pub struct Clock {
    pub hour: u32,
    pub minute: u32,
}

impl Clock {
    /// Takes the current time in. Says whether the clock has to be drawn anew,
    /// which is only when the minute it shows has changed.
    pub fn tick(&mut self, hour: u32, minute: u32) -> (r: bool)
        ensures
            r == (old(self).hour != hour || old(self).minute != minute),
            *final(self) == (Clock { hour, minute }),
    {
        let changed: bool = self.hour != hour || self.minute != minute;
        self.hour = hour;
        self.minute = minute;
        changed
    }
}

/// What the overlay does when its settings or the outputs change.
#[derive(Clone, Copy, Debug, PartialEq, Eq, Structural)]
pub enum OverlayChange {
    /// Nothing.
    Keep,
    /// Close the surface, if there is one.
    Close,
    /// Close the surface, if there is one, and open one on this output.
    Open(u64),
}

/// The overlay that is drawn on one output.
#[derive(Clone, Copy, Debug, PartialEq, Eq, Structural)]
pub struct StatusOverlay {
    /// The output the surface was opened on, so a change that doesn't move it
    /// leaves it alone.
    pub display: Option<u64>,
}

impl StatusOverlay {
    /// Follows the settings and the outputs. `target` is the output the overlay
    /// belongs on, and `is_open` whether its surface is still around.
    pub fn sync(&mut self, enabled: bool, target: Option<u64>, is_open: bool) -> (r: OverlayChange)
        ensures
            ({
                let wanted = if enabled {
                    target
                } else {
                    None
                };
                if wanted == old(self).display && is_open {
                    r == OverlayChange::Keep && *final(self) == *old(self)
                } else {
                    &&& final(self).display == wanted
                    &&& r == (match wanted {
                        Some(display) => OverlayChange::Open(display),
                        None => OverlayChange::Close,
                    })
                }
            }),
    {
        let wanted = if enabled {
            target
        } else {
            None
        };
        let unmoved: bool = match (wanted, self.display) {
            (Some(a), Some(b)) => a == b,
            (None, None) => true,
            _ => false,
        };
        if unmoved && is_open {
            return OverlayChange::Keep;
        }
        self.display = wanted;
        match wanted {
            Some(display) => OverlayChange::Open(display),
            None => OverlayChange::Close,
        }
    }
}

/// A display is found by its name wherever it is attached, the first of that name, and a name
/// that no display has is not found.
pub proof fn law_displays_are_found_by_name(
    displays: Seq<Option<Seq<char>>>,
    name: Seq<char>,
    k: int,
)
    ensures
        display_from(displays, 0, name) is Some <==> displays.contains(Some(name)),
        display_from(displays, 0, name) matches Some(i) ==> 0 <= i < displays.len()
            && displays[i] == Some(name) && (0 <= k < i ==> displays[k] != Some(name)),
{
    lemma_first_display(displays, 0, name, k);
}

proof fn lemma_first_display(
    displays: Seq<Option<Seq<char>>>,
    from: int,
    name: Seq<char>,
    k: int,
)
    requires
        0 <= from <= displays.len(),
    ensures
        display_from(displays, from, name) is Some <==> exists|j: int|
            from <= j < displays.len() && #[trigger] displays[j] == Some(name),
        display_from(displays, from, name) matches Some(i) ==> from <= i < displays.len()
            && displays[i] == Some(name) && (from <= k < i ==> displays[k] != Some(name)),
    decreases displays.len() - from,
{
    if from < displays.len() && displays[from] != Some(name) {
        lemma_first_display(displays, from + 1, name, k);
    }
}

/// What has a display of its own goes there, and only without one to the primary display. A
/// display that is not attached is replaced by the first that is.
pub proof fn law_own_display_comes_first(
    own: Seq<char>,
    primary: Option<Seq<char>>,
    displays: Seq<Option<Seq<char>>>,
)
    requires
        displays.len() > 0,
    ensures
        target(Some(own), primary, displays) == target(Some(own), None, displays),
        target(None, Some(own), displays) == target(Some(own), None, displays),
        target(None, None, displays) == Some(0int),
        !displays.contains(Some(own)) ==> target(Some(own), primary, displays) == Some(0int),
        displays.contains(Some(own)) ==> (target(Some(own), primary, displays) matches Some(i)
            && 0 <= i < displays.len() && displays[i] == Some(own)),
{
    law_displays_are_found_by_name(displays, own, 0);
}

/// The prompt shows on the display that other things of that name go to, and on the first
/// where there is none.
pub proof fn law_prompts_show_on_the_target(
    own: Option<Seq<char>>,
    primary: Option<Seq<char>>,
    displays: Seq<Option<Seq<char>>>,
)
    ensures
        target(own, primary, displays) matches Some(i) ==> prompt_display(own, primary, displays)
            == i,
        displays.len() == 0 ==> prompt_display(own, primary, displays) == 0,
{
}

} // verus!
