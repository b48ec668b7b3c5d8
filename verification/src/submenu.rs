//! A menu over the list, on its way in or out.

use vstd::prelude::*;

verus! {

/// How long the menu takes to go away, in milliseconds.
pub const ANIM_EXIT_DURATION: u64 = 100;

/// What the menu tells.
#[derive(Clone, Copy, Debug, PartialEq, Eq, Structural)]
pub enum SubMenuEvent {
    /// The item at a position was picked.
    Picked { index: usize },
    /// It has gone away.
    Dismissed,
}

/// A menu.
#[derive(Debug)]
pub struct SubMenu {
    closing: bool,
}

impl SubMenu {
    /// Whether the menu is on its way out.
    pub closed spec fn going(&self) -> bool {
        self.closing
    }

    pub fn new() -> (r: Self)
        ensures
            !r.going(),
    {
        SubMenu { closing: false }
    }

    pub fn is_closing(&self) -> (r: bool)
        ensures
            r == self.going(),
    {
        self.closing
    }

    /// Sends the menu away, unless it is going. Gives back after how long it has gone.
    pub fn dismiss(&mut self) -> (r: Option<u64>)
        ensures
            final(self).going(),
            r == (if old(self).going() {
                None
            } else {
                Some(ANIM_EXIT_DURATION)
            }),
            r matches Some(millis) ==> millis == 100,
    {
        if self.closing {
            return None;
        }
        self.closing = true;
        Some(ANIM_EXIT_DURATION)
    }

    /// An item was picked: that is passed on, and the menu goes away.
    pub fn pick(&mut self, index: usize) -> (r: (SubMenuEvent, Option<u64>))
        ensures
            r.0 == (SubMenuEvent::Picked { index }),
            final(self).going(),
            r.1 == (if old(self).going() {
                None
            } else {
                Some(ANIM_EXIT_DURATION)
            }),
    {
        let left = self.dismiss();
        (SubMenuEvent::Picked { index }, left)
    }
}

} // verus!
