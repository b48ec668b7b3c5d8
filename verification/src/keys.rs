//! The keys of an input field, and when they do something.

use vstd::prelude::*;

use crate::text::same;

verus! {

/// Something that a key does in an input field.
#[derive(Clone, Copy, Debug, PartialEq, Eq, Structural)]
pub enum InputAction {
    Backspace,
    Delete,
    DeleteToBeginningOfLine,
    DeleteToEndOfLine,
    DeleteToPreviousWordStart,
    DeleteToNextWordEnd,
    Enter { secondary: bool },
    Escape,
    MoveUp,
    MoveDown,
    MoveLeft,
    MoveRight,
    MoveHome,
    MoveEnd,
    MovePageUp,
    MovePageDown,
    MoveToStart,
    MoveToEnd,
    MoveToPreviousWord,
    MoveToNextWord,
    SelectUp,
    SelectDown,
    SelectLeft,
    SelectRight,
    SelectAll,
    SelectToStartOfLine,
    SelectToEndOfLine,
    SelectToStart,
    SelectToEnd,
    SelectToPreviousWordStart,
    SelectToNextWordEnd,
    Copy,
    Cut,
    Paste,
    Undo,
    Redo,
}

/// What keys do in an input field.
pub open spec fn bound_to(keys: Seq<char>) -> Option<InputAction> {
    if keys == "backspace"@ {
        Some(InputAction::Backspace)
    } else if keys == "delete"@ {
        Some(InputAction::Delete)
    } else if keys == "ctrl-backspace"@ {
        Some(InputAction::DeleteToPreviousWordStart)
    } else if keys == "ctrl-delete"@ {
        Some(InputAction::DeleteToNextWordEnd)
    } else if keys == "enter"@ {
        Some(InputAction::Enter { secondary: false })
    } else if keys == "secondary-enter"@ {
        Some(InputAction::Enter { secondary: true })
    } else if keys == "escape"@ {
        Some(InputAction::Escape)
    } else if keys == "up"@ {
        Some(InputAction::MoveUp)
    } else if keys == "down"@ {
        Some(InputAction::MoveDown)
    } else if keys == "left"@ {
        Some(InputAction::MoveLeft)
    } else if keys == "right"@ {
        Some(InputAction::MoveRight)
    } else if keys == "pageup"@ {
        Some(InputAction::MovePageUp)
    } else if keys == "pagedown"@ {
        Some(InputAction::MovePageDown)
    } else if keys == "shift-left"@ {
        Some(InputAction::SelectLeft)
    } else if keys == "shift-right"@ {
        Some(InputAction::SelectRight)
    } else if keys == "shift-up"@ {
        Some(InputAction::SelectUp)
    } else if keys == "shift-down"@ {
        Some(InputAction::SelectDown)
    } else if keys == "home"@ {
        Some(InputAction::MoveHome)
    } else if keys == "end"@ {
        Some(InputAction::MoveEnd)
    } else if keys == "shift-home"@ {
        Some(InputAction::SelectToStartOfLine)
    } else if keys == "shift-end"@ {
        Some(InputAction::SelectToEndOfLine)
    } else if keys == "ctrl-shift-left"@ {
        Some(InputAction::SelectToPreviousWordStart)
    } else if keys == "ctrl-shift-right"@ {
        Some(InputAction::SelectToNextWordEnd)
    } else if keys == "ctrl-a"@ {
        Some(InputAction::SelectAll)
    } else if keys == "ctrl-c"@ {
        Some(InputAction::Copy)
    } else if keys == "ctrl-x"@ {
        Some(InputAction::Cut)
    } else if keys == "ctrl-v"@ {
        Some(InputAction::Paste)
    } else if keys == "ctrl-left"@ {
        Some(InputAction::MoveToPreviousWord)
    } else if keys == "ctrl-right"@ {
        Some(InputAction::MoveToNextWord)
    } else if keys == "ctrl-z"@ {
        Some(InputAction::Undo)
    } else if keys == "ctrl-y"@ {
        Some(InputAction::Redo)
    } else {
        None
    }
}

/// What keys do in an input field; see [`bound_to`].
pub fn binding(keys: &str) -> (r: Option<InputAction>)
    ensures
        r == bound_to(keys@),
{
    if same(keys, "backspace") {
        Some(InputAction::Backspace)
    } else if same(keys, "delete") {
        Some(InputAction::Delete)
    } else if same(keys, "ctrl-backspace") {
        Some(InputAction::DeleteToPreviousWordStart)
    } else if same(keys, "ctrl-delete") {
        Some(InputAction::DeleteToNextWordEnd)
    } else if same(keys, "enter") {
        Some(InputAction::Enter { secondary: false })
    } else if same(keys, "secondary-enter") {
        Some(InputAction::Enter { secondary: true })
    } else if same(keys, "escape") {
        Some(InputAction::Escape)
    } else if same(keys, "up") {
        Some(InputAction::MoveUp)
    } else if same(keys, "down") {
        Some(InputAction::MoveDown)
    } else if same(keys, "left") {
        Some(InputAction::MoveLeft)
    } else if same(keys, "right") {
        Some(InputAction::MoveRight)
    } else if same(keys, "pageup") {
        Some(InputAction::MovePageUp)
    } else if same(keys, "pagedown") {
        Some(InputAction::MovePageDown)
    } else if same(keys, "shift-left") {
        Some(InputAction::SelectLeft)
    } else if same(keys, "shift-right") {
        Some(InputAction::SelectRight)
    } else if same(keys, "shift-up") {
        Some(InputAction::SelectUp)
    } else if same(keys, "shift-down") {
        Some(InputAction::SelectDown)
    } else if same(keys, "home") {
        Some(InputAction::MoveHome)
    } else if same(keys, "end") {
        Some(InputAction::MoveEnd)
    } else if same(keys, "shift-home") {
        Some(InputAction::SelectToStartOfLine)
    } else if same(keys, "shift-end") {
        Some(InputAction::SelectToEndOfLine)
    } else if same(keys, "ctrl-shift-left") {
        Some(InputAction::SelectToPreviousWordStart)
    } else if same(keys, "ctrl-shift-right") {
        Some(InputAction::SelectToNextWordEnd)
    } else if same(keys, "ctrl-a") {
        Some(InputAction::SelectAll)
    } else if same(keys, "ctrl-c") {
        Some(InputAction::Copy)
    } else if same(keys, "ctrl-x") {
        Some(InputAction::Cut)
    } else if same(keys, "ctrl-v") {
        Some(InputAction::Paste)
    } else if same(keys, "ctrl-left") {
        Some(InputAction::MoveToPreviousWord)
    } else if same(keys, "ctrl-right") {
        Some(InputAction::MoveToNextWord)
    } else if same(keys, "ctrl-z") {
        Some(InputAction::Undo)
    } else if same(keys, "ctrl-y") {
        Some(InputAction::Redo)
    } else {
        None
    }
}

/// Whether an action changes the text, and is therefore left out of a field that is
/// disabled.
pub open spec fn changes_text(action: InputAction) -> bool {
    match action {
        InputAction::Backspace => true,
        InputAction::Delete => true,
        InputAction::DeleteToBeginningOfLine => true,
        InputAction::DeleteToEndOfLine => true,
        InputAction::DeleteToPreviousWordStart => true,
        InputAction::DeleteToNextWordEnd => true,
        InputAction::Enter { .. } => true,
        InputAction::Escape => true,
        InputAction::Paste => true,
        InputAction::Cut => true,
        InputAction::Undo => true,
        InputAction::Redo => true,
        _ => false,
    }
}

/// Whether an action goes from line to line, and is therefore left out of a field of
/// a single line.
pub open spec fn changes_line(action: InputAction) -> bool {
    match action {
        InputAction::MoveUp => true,
        InputAction::MoveDown => true,
        InputAction::SelectUp => true,
        InputAction::SelectDown => true,
        InputAction::MovePageUp => true,
        InputAction::MovePageDown => true,
        _ => false,
    }
}

/// Whether a field listens for an action.
pub fn input_state_listeners(action: InputAction, disabled: bool, is_multi_line: bool) -> (r: bool)
    ensures
        r == ((changes_text(action) ==> !disabled) && (changes_line(action) ==> is_multi_line)),
{
    match action {
        InputAction::Backspace
        | InputAction::Delete
        | InputAction::DeleteToBeginningOfLine
        | InputAction::DeleteToEndOfLine
        | InputAction::DeleteToPreviousWordStart
        | InputAction::DeleteToNextWordEnd
        | InputAction::Enter { .. }
        | InputAction::Escape
        | InputAction::Paste
        | InputAction::Cut
        | InputAction::Undo
        | InputAction::Redo => !disabled,
        InputAction::MoveUp
        | InputAction::MoveDown
        | InputAction::SelectUp
        | InputAction::SelectDown
        | InputAction::MovePageUp
        | InputAction::MovePageDown => is_multi_line,
        _ => true,
    }
}

/// Every key of the field has one meaning, and nothing else has it.
pub proof fn law_keys_mean_what_they_say(keys: Seq<char>)
    ensures
        bound_to(keys) == Some(InputAction::Backspace) <==> keys == "backspace"@,
        bound_to(keys) == Some(InputAction::Delete) <==> keys == "delete"@,
        bound_to(keys) == Some(InputAction::DeleteToPreviousWordStart) <==> keys == "ctrl-backspace"@,
        bound_to(keys) == Some(InputAction::DeleteToNextWordEnd) <==> keys == "ctrl-delete"@,
        bound_to(keys) == Some((InputAction::Enter { secondary: false })) <==> keys == "enter"@,
        bound_to(keys) == Some((InputAction::Enter { secondary: true })) <==> keys == "secondary-enter"@,
        bound_to(keys) == Some(InputAction::Escape) <==> keys == "escape"@,
        bound_to(keys) == Some(InputAction::MoveUp) <==> keys == "up"@,
        bound_to(keys) == Some(InputAction::MoveDown) <==> keys == "down"@,
        bound_to(keys) == Some(InputAction::MoveLeft) <==> keys == "left"@,
        bound_to(keys) == Some(InputAction::MoveRight) <==> keys == "right"@,
        bound_to(keys) == Some(InputAction::MovePageUp) <==> keys == "pageup"@,
        bound_to(keys) == Some(InputAction::MovePageDown) <==> keys == "pagedown"@,
        bound_to(keys) == Some(InputAction::SelectLeft) <==> keys == "shift-left"@,
        bound_to(keys) == Some(InputAction::SelectRight) <==> keys == "shift-right"@,
        bound_to(keys) == Some(InputAction::SelectUp) <==> keys == "shift-up"@,
        bound_to(keys) == Some(InputAction::SelectDown) <==> keys == "shift-down"@,
        bound_to(keys) == Some(InputAction::MoveHome) <==> keys == "home"@,
        bound_to(keys) == Some(InputAction::MoveEnd) <==> keys == "end"@,
        bound_to(keys) == Some(InputAction::SelectToStartOfLine) <==> keys == "shift-home"@,
        bound_to(keys) == Some(InputAction::SelectToEndOfLine) <==> keys == "shift-end"@,
        bound_to(keys) == Some(InputAction::SelectToPreviousWordStart) <==> keys == "ctrl-shift-left"@,
        bound_to(keys) == Some(InputAction::SelectToNextWordEnd) <==> keys == "ctrl-shift-right"@,
        bound_to(keys) == Some(InputAction::SelectAll) <==> keys == "ctrl-a"@,
        bound_to(keys) == Some(InputAction::Copy) <==> keys == "ctrl-c"@,
        bound_to(keys) == Some(InputAction::Cut) <==> keys == "ctrl-x"@,
        bound_to(keys) == Some(InputAction::Paste) <==> keys == "ctrl-v"@,
        bound_to(keys) == Some(InputAction::MoveToPreviousWord) <==> keys == "ctrl-left"@,
        bound_to(keys) == Some(InputAction::MoveToNextWord) <==> keys == "ctrl-right"@,
        bound_to(keys) == Some(InputAction::Undo) <==> keys == "ctrl-z"@,
        bound_to(keys) == Some(InputAction::Redo) <==> keys == "ctrl-y"@,
{
    lemma_keys_differ();
}

proof fn lemma_keys_differ()
    ensures
        "backspace"@.len() == 9,
        "delete"@.len() == 6,
        "ctrl-backspace"@.len() == 14,
        "ctrl-delete"@.len() == 11,
        "enter"@.len() == 5,
        "secondary-enter"@.len() == 15,
        "escape"@.len() == 6,
        "up"@.len() == 2,
        "down"@.len() == 4,
        "left"@.len() == 4,
        "right"@.len() == 5,
        "pageup"@.len() == 6,
        "pagedown"@.len() == 8,
        "shift-left"@.len() == 10,
        "shift-right"@.len() == 11,
        "shift-up"@.len() == 8,
        "shift-down"@.len() == 10,
        "home"@.len() == 4,
        "end"@.len() == 3,
        "shift-home"@.len() == 10,
        "shift-end"@.len() == 9,
        "ctrl-shift-left"@.len() == 15,
        "ctrl-shift-right"@.len() == 16,
        "ctrl-a"@.len() == 6,
        "ctrl-c"@.len() == 6,
        "ctrl-x"@.len() == 6,
        "ctrl-v"@.len() == 6,
        "ctrl-left"@.len() == 9,
        "ctrl-right"@.len() == 10,
        "ctrl-z"@.len() == 6,
        "ctrl-y"@.len() == 6,
        "delete"@[0] != "escape"@[0],
        "down"@[0] != "left"@[0],
        "enter"@[0] != "right"@[0],
        "delete"@[0] != "pageup"@[0],
        "escape"@[0] != "pageup"@[0],
        "ctrl-delete"@[0] != "shift-right"@[0],
        "pagedown"@[0] != "shift-up"@[0],
        "shift-left"@[6] != "shift-down"@[6],
        "down"@[0] != "home"@[0],
        "left"@[0] != "home"@[0],
        "shift-left"@[6] != "shift-home"@[6],
        "shift-down"@[6] != "shift-home"@[6],
        "backspace"@[0] != "shift-end"@[0],
        "secondary-enter"@[0] != "ctrl-shift-left"@[0],
        "delete"@[0] != "ctrl-a"@[0],
        "escape"@[0] != "ctrl-a"@[0],
        "pageup"@[0] != "ctrl-a"@[0],
        "delete"@[0] != "ctrl-c"@[0],
        "escape"@[0] != "ctrl-c"@[0],
        "pageup"@[0] != "ctrl-c"@[0],
        "ctrl-a"@[5] != "ctrl-c"@[5],
        "delete"@[0] != "ctrl-x"@[0],
        "escape"@[0] != "ctrl-x"@[0],
        "pageup"@[0] != "ctrl-x"@[0],
        "ctrl-a"@[5] != "ctrl-x"@[5],
        "ctrl-c"@[5] != "ctrl-x"@[5],
        "delete"@[0] != "ctrl-v"@[0],
        "escape"@[0] != "ctrl-v"@[0],
        "pageup"@[0] != "ctrl-v"@[0],
        "ctrl-a"@[5] != "ctrl-v"@[5],
        "ctrl-c"@[5] != "ctrl-v"@[5],
        "ctrl-x"@[5] != "ctrl-v"@[5],
        "backspace"@[0] != "ctrl-left"@[0],
        "shift-end"@[0] != "ctrl-left"@[0],
        "shift-left"@[0] != "ctrl-right"@[0],
        "shift-down"@[0] != "ctrl-right"@[0],
        "shift-home"@[0] != "ctrl-right"@[0],
        "delete"@[0] != "ctrl-z"@[0],
        "escape"@[0] != "ctrl-z"@[0],
        "pageup"@[0] != "ctrl-z"@[0],
        "ctrl-a"@[5] != "ctrl-z"@[5],
        "ctrl-c"@[5] != "ctrl-z"@[5],
        "ctrl-x"@[5] != "ctrl-z"@[5],
        "ctrl-v"@[5] != "ctrl-z"@[5],
        "delete"@[0] != "ctrl-y"@[0],
        "escape"@[0] != "ctrl-y"@[0],
        "pageup"@[0] != "ctrl-y"@[0],
        "ctrl-a"@[5] != "ctrl-y"@[5],
        "ctrl-c"@[5] != "ctrl-y"@[5],
        "ctrl-x"@[5] != "ctrl-y"@[5],
        "ctrl-v"@[5] != "ctrl-y"@[5],
        "ctrl-z"@[5] != "ctrl-y"@[5],
{
    reveal_strlit("backspace");
    reveal_strlit("delete");
    reveal_strlit("ctrl-backspace");
    reveal_strlit("ctrl-delete");
    reveal_strlit("enter");
    reveal_strlit("secondary-enter");
    reveal_strlit("escape");
    reveal_strlit("up");
    reveal_strlit("down");
    reveal_strlit("left");
    reveal_strlit("right");
    reveal_strlit("pageup");
    reveal_strlit("pagedown");
    reveal_strlit("shift-left");
    reveal_strlit("shift-right");
    reveal_strlit("shift-up");
    reveal_strlit("shift-down");
    reveal_strlit("home");
    reveal_strlit("end");
    reveal_strlit("shift-home");
    reveal_strlit("shift-end");
    reveal_strlit("ctrl-shift-left");
    reveal_strlit("ctrl-shift-right");
    reveal_strlit("ctrl-a");
    reveal_strlit("ctrl-c");
    reveal_strlit("ctrl-x");
    reveal_strlit("ctrl-v");
    reveal_strlit("ctrl-left");
    reveal_strlit("ctrl-right");
    reveal_strlit("ctrl-z");
    reveal_strlit("ctrl-y");
}

/// A field that is disabled is still looked at: it takes every movement, selection and copy,
/// and nothing that would change its text or leave it.
pub proof fn law_reading_is_always_allowed(action: InputAction)
    ensures
        changes_text(action) <==> {
            ||| action is Backspace || action is Delete
            ||| action is DeleteToBeginningOfLine || action is DeleteToEndOfLine
            ||| action is DeleteToPreviousWordStart || action is DeleteToNextWordEnd
            ||| action is Enter || action is Escape
            ||| action is Cut || action is Paste
            ||| action is Undo || action is Redo
        },
{
}

/// Going from line to line takes more than one line.
pub proof fn law_lines_are_for_many_lines(action: InputAction)
    ensures
        changes_line(action) <==> {
            ||| action is MoveUp || action is MoveDown
            ||| action is SelectUp || action is SelectDown
            ||| action is MovePageUp || action is MovePageDown
        },
        changes_line(action) ==> !changes_text(action),
{
}

} // verus!
