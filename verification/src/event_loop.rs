//! The decisions the event loop takes on each window event: whether to stop, which
//! mouse buttons are held, and whether the model moves on a frame.
use vstd::prelude::*;

verus! {

/// What the event loop does after an event.
#[derive(Clone, Copy, Debug, PartialEq, Eq, Structural)]
pub enum LoopAction {
    /// Stop the loop.
    Exit,
    /// Go on; when `update_model` holds, the input changed and the model takes a step.
    Continue { update_model: bool },
}

/// What the event loop learnt from one event.
#[derive(Clone, Copy, Debug, PartialEq, Eq)]
pub struct InputEvent {
    /// A redraw was asked for and rendering the frame failed.
    pub render_failed: bool,
    /// The input helper took the event in and has new input to report.
    pub input_updated: bool,
    /// Escape was pressed or the window was asked to close.
    pub quit_requested: bool,
    /// The left mouse button went down.
    pub left_pressed: bool,
    /// The left mouse button went up.
    pub left_released: bool,
    /// The right mouse button went down.
    pub right_pressed: bool,
    /// The right mouse button went up.
    pub right_released: bool,
}

/// Whether a button is held after an event: a press holds it, else a release lets it go.
pub open spec fn held_after(held: bool, pressed: bool, released: bool) -> bool {
    if pressed {
        true
    } else if released {
        false
    } else {
        held
    }
}

/// One turn of the event loop, given whether the left and right buttons were held:
/// a failed render stops the loop, as does Escape or a close request among new input;
/// otherwise new input presses or releases the buttons and lets the model take a step.
pub fn handle_event(
    left_click_is_held_down: bool,
    right_click_is_held_down: bool,
    event: InputEvent,
) -> (next: (bool, bool, LoopAction))
    ensures
        event.render_failed || (event.input_updated && event.quit_requested) ==> next == (
            left_click_is_held_down,
            right_click_is_held_down,
            LoopAction::Exit,
        ),
        !(event.render_failed || (event.input_updated && event.quit_requested)) ==> {
            &&& next.2 == LoopAction::Continue { update_model: event.input_updated }
            &&& next.0 == if event.input_updated {
                held_after(left_click_is_held_down, event.left_pressed, event.left_released)
            } else {
                left_click_is_held_down
            }
            &&& next.1 == if event.input_updated {
                held_after(right_click_is_held_down, event.right_pressed, event.right_released)
            } else {
                right_click_is_held_down
            }
        },
{
    let mut left = left_click_is_held_down;
    let mut right = right_click_is_held_down;

    // Draw the current frame
    if event.render_failed {
        return (left, right, LoopAction::Exit);
    }

    // Handle input events
    if event.input_updated {
        // Close events
        if event.quit_requested {
            return (left, right, LoopAction::Exit);
        }

        if event.left_pressed {
            left = true
        } else if event.left_released {
            left = false
        }

        if event.right_pressed {
            right = true
        } else if event.right_released {
            right = false
        }
    }

    (left, right, LoopAction::Continue { update_model: event.input_updated })
}

} // verus!
