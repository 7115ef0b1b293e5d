//! The viewer's key bindings: which action a pressed key asks for.

use vstd::prelude::*;

verus! {

/// What one keyboard event asks the viewer to do.
pub enum Action {
    Quit,
    ScrollDown,
    ScrollUp,
    PageDown,
    PageUp,
    GoToEnd,
    Idle,
}

/// The key binding table: `q` quits, `j` and `k` scroll by one line,
/// control-`d` and control-`u` page, `G` jumps to the end, and any other
/// key does nothing.
pub open spec fn action_spec(key: char, ctrl: bool) -> Action {
    if key == 'q' {
        Action::Quit
    } else if key == 'j' {
        Action::ScrollDown
    } else if key == 'k' {
        Action::ScrollUp
    } else if key == 'G' {
        Action::GoToEnd
    } else if key == 'd' && ctrl {
        Action::PageDown
    } else if key == 'u' && ctrl {
        Action::PageUp
    } else {
        Action::Idle
    }
}

/// Maps a pressed character key, with its control-modifier state, to the
/// action it is bound to.
pub fn action_for_key(key: char, ctrl: bool) -> (a: Action)
    ensures
        a == action_spec(key, ctrl),
{
    if key == 'q' {
        Action::Quit
    } else if key == 'j' {
        Action::ScrollDown
    } else if key == 'k' {
        Action::ScrollUp
    } else if key == 'G' {
        Action::GoToEnd
    } else if key == 'd' && ctrl {
        Action::PageDown
    } else if key == 'u' && ctrl {
        Action::PageUp
    } else {
        Action::Idle
    }
}

} // verus!
