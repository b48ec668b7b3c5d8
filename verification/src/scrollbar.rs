//! What a scrollbar does with the mouse.

use vstd::prelude::*;

verus! {

/// The colour of the thumb at rest, with its opacity last.
pub const THUMB_COLOR: u32 = 0xFFFFFF33;

/// The colour of the thumb under the pointer.
pub const THUMB_HOVER_COLOR: u32 = 0xFFFFFF55;

/// The colour of the thumb while it is dragged.
pub const THUMB_DRAG_COLOR: u32 = 0xFFFFFF77;

/// What the scrollbar asks for.
#[derive(Clone, Copy, Debug, PartialEq, Eq, Structural)]
pub enum ScrollbarAction {
    Nothing,
    /// It is drawn again.
    Repaint,
    /// The position of the pointer and of the content are kept, to drag from.
    Hold,
    /// The content jumps to where the track was clicked.
    Jump,
    /// The content follows the thumb.
    Follow,
}

impl ScrollbarAction {
    /// Whether the event goes no further.
    pub open spec fn takes(self) -> bool {
        self is Hold || self is Jump || self is Follow
    }

    /// Whether the event goes no further.
    pub fn stops_propagation(self) -> (r: bool)
        ensures
            r == self.takes(),
    {
        match self {
            ScrollbarAction::Hold => true,
            ScrollbarAction::Jump => true,
            ScrollbarAction::Follow => true,
            _ => false,
        }
    }
}

/// What a scrollbar knows of the mouse.
#[derive(Clone, Copy, Debug, PartialEq, Eq, Structural)]
pub struct ScrollbarState {
    pub dragging: bool,
    pub hovered_on_thumb: bool,
}

impl ScrollbarState {
    /// Neither dragged nor hovered.
    pub fn new() -> (r: Self)
        ensures
            r == (ScrollbarState { dragging: false, hovered_on_thumb: false }),
    {
        ScrollbarState { dragging: false, hovered_on_thumb: false }
    }

    /// The colour the thumb is drawn in.
    pub fn thumb_color(self) -> (r: u32)
        ensures
            r == (if self.dragging {
                THUMB_DRAG_COLOR
            } else if self.hovered_on_thumb {
                THUMB_HOVER_COLOR
            } else {
                THUMB_COLOR
            }),
    {
        if self.dragging {
            THUMB_DRAG_COLOR
        } else if self.hovered_on_thumb {
            THUMB_HOVER_COLOR
        } else {
            THUMB_COLOR
        }
    }

    /// What pressing a button does: on the thumb it begins to drag, and elsewhere on
    /// the track the content jumps.
    pub open spec fn pressed(self, bubble: bool, left: bool, track: bool, thumb: bool) -> (
        ScrollbarState,
        ScrollbarAction,
    ) {
        if !bubble || !left || !track {
            (self, ScrollbarAction::Nothing)
        } else if thumb {
            (ScrollbarState { dragging: true, ..self }, ScrollbarAction::Hold)
        } else {
            (self, ScrollbarAction::Jump)
        }
    }

    /// What moving the pointer does: while a button is held, the content follows a
    /// thumb that is dragged. Otherwise only what is drawn changes.
    pub open spec fn moved(self, thumb: bool, held: bool) -> (ScrollbarState, ScrollbarAction) {
        (
            ScrollbarState { hovered_on_thumb: thumb, ..self },
            if self.dragging && held {
                ScrollbarAction::Follow
            } else if thumb != self.hovered_on_thumb {
                ScrollbarAction::Repaint
            } else {
                ScrollbarAction::Nothing
            },
        )
    }

    /// What letting go of a button does: a thumb is dragged no longer.
    pub open spec fn released(self, bubble: bool) -> (ScrollbarState, ScrollbarAction) {
        if bubble && self.dragging {
            (ScrollbarState { dragging: false, ..self }, ScrollbarAction::Repaint)
        } else {
            (self, ScrollbarAction::Nothing)
        }
    }

    /// A button is pressed; see [`ScrollbarState::pressed`]. `bubble` says that the
    /// event is on its way up; `track` and `thumb`, what is under the pointer.
    pub fn mouse_down(&mut self, bubble: bool, left: bool, track: bool, thumb: bool) -> (r:
        ScrollbarAction)
        ensures
            (*final(self), r) == old(self).pressed(bubble, left, track, thumb),
    {
        if !bubble || !left || !track {
            return ScrollbarAction::Nothing;
        }
        if thumb {
            self.dragging = true;
            ScrollbarAction::Hold
        } else {
            ScrollbarAction::Jump
        }
    }

    /// The pointer moves; see [`ScrollbarState::moved`].
    pub fn mouse_move(&mut self, thumb: bool, held: bool) -> (r: ScrollbarAction)
        ensures
            (*final(self), r) == old(self).moved(thumb, held),
    {
        let was_hovered = self.hovered_on_thumb;
        self.hovered_on_thumb = thumb;
        if self.dragging && held {
            ScrollbarAction::Follow
        } else if thumb != was_hovered {
            ScrollbarAction::Repaint
        } else {
            ScrollbarAction::Nothing
        }
    }

    /// A button is let go of; see [`ScrollbarState::released`].
    pub fn mouse_up(&mut self, bubble: bool) -> (r: ScrollbarAction)
        ensures
            (*final(self), r) == old(self).released(bubble),
    {
        if bubble && self.dragging {
            self.dragging = false;
            ScrollbarAction::Repaint
        } else {
            ScrollbarAction::Nothing
        }
    }

    /// The content follows the pointer only between a press on the thumb and the
    /// button being let go of.
    pub proof fn law_only_a_held_thumb_scrolls(self, bubble: bool, thumb: bool, held: bool)
        ensures
            self.released(true).0.moved(thumb, held).1 != ScrollbarAction::Follow,
            self.pressed(bubble, true, true, true).0.moved(thumb, true).1 == ScrollbarAction::Follow
                <==> bubble || self.dragging,
    {
    }
}

/// A press takes hold of the thumb when it lands there, and jumps when it lands beside it on
/// the track; anywhere else, with another button or on its way down it does nothing.
pub proof fn law_presses_hold_or_jump(
    state: ScrollbarState,
    bubble: bool,
    left: bool,
    track: bool,
    thumb: bool,
)
    ensures
        ({
            let (after, action) = state.pressed(bubble, left, track, thumb);
            let meant = bubble && left && track;
            &&& action is Hold <==> meant && thumb
            &&& action is Jump <==> meant && !thumb
            &&& action is Nothing <==> !meant
            &&& after.dragging <==> state.dragging || (meant && thumb)
            &&& after.hovered_on_thumb == state.hovered_on_thumb
        }),
{
}

/// The pointer is known to be on the thumb exactly while it is; the bar follows it while it
/// holds the thumb, and otherwise shows it when it comes or goes.
pub proof fn law_moves_follow_or_repaint(state: ScrollbarState, thumb: bool, held: bool)
    ensures
        ({
            let (after, action) = state.moved(thumb, held);
            &&& after.hovered_on_thumb == thumb
            &&& after.dragging == state.dragging
            &&& action is Follow <==> state.dragging && held
            &&& action is Repaint <==> !(state.dragging && held) && thumb != state.hovered_on_thumb
            &&& !(action is Hold) && !(action is Jump)
        }),
{
}

/// Letting go ends the drag and is shown; there is nothing to let go of without one.
pub proof fn law_letting_go_ends_the_drag(state: ScrollbarState, bubble: bool)
    ensures
        ({
            let (after, action) = state.released(bubble);
            &&& bubble ==> !after.dragging
            &&& !bubble ==> after == state
            &&& after.hovered_on_thumb == state.hovered_on_thumb
            &&& action is Repaint <==> bubble && state.dragging
            &&& action is Nothing <==> !(bubble && state.dragging)
        }),
{
}

/// The bar keeps to itself what it acts on, and lets everything else through.
pub proof fn law_taken_events_stop(action: ScrollbarAction)
    ensures
        !action.takes() <==> action is Nothing || action is Repaint,
{
}

} // verus!
