//! The in-game toolbar: its buttons and the events they send.
use vstd::prelude::*;

verus! {

/// A toolbar button.
#[derive(Debug, Clone, Copy, PartialEq, Eq, Structural)]
pub enum ToolbarButton {
    Rollback,
    History,
    Skip,
    Auto,
    Save,
    Load,
    Settings,
}

/// The event a pressed toolbar button sends.
#[derive(Debug, Clone, Copy, PartialEq, Eq, Structural)]
pub enum ToolbarEvent {
    ToggleMenu,
    Rollback,
    ToggleAutoPlay,
    /// The button only reports that it was pressed.
    NoEvent,
}

/// The event a pressed toolbar button sends: settings toggles the menu,
/// rollback steps back, auto toggles auto play; the others send nothing.
pub fn toolbar_event(button: ToolbarButton) -> (e: ToolbarEvent)
    ensures
        e == (match button {
            ToolbarButton::Settings => ToolbarEvent::ToggleMenu,
            ToolbarButton::Rollback => ToolbarEvent::Rollback,
            ToolbarButton::Auto => ToolbarEvent::ToggleAutoPlay,
            _ => ToolbarEvent::NoEvent,
        }),
{
    match button {
        ToolbarButton::Settings => ToolbarEvent::ToggleMenu,
        ToolbarButton::Rollback => ToolbarEvent::Rollback,
        ToolbarButton::Auto => ToolbarEvent::ToggleAutoPlay,
        _ => ToolbarEvent::NoEvent,
    }
}

/// Whether a button of the target's kind is pressed, given the buttons with
/// whether each is pressed.
pub fn button_pressed(buttons: &Vec<(bool, ToolbarButton)>, target: ToolbarButton) -> (r: bool)
    ensures
        r == exists|i: int|
            0 <= i < buttons@.len() && (#[trigger] buttons@[i]).0 && buttons@[i].1 == target,
{
    let mut i: usize = 0;
    while i < buttons.len()
        invariant
            i <= buttons@.len(),
            forall|k: int| 0 <= k < i ==> !((#[trigger] buttons@[k]).0 && buttons@[k].1 == target),
        decreases buttons@.len() - i,
    {
        if buttons[i].1 == target && buttons[i].0 {
            assert(buttons@[i as int].0 && buttons@[i as int].1 == target);
            return true;
        }
        i = i + 1;
    }
    false
}

} // verus!
