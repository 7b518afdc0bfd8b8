use vstd::prelude::*;
use crate::engine::enums::ButtonState;

verus! {

/// What the pointer did to a button: the state that the button shows next,
/// and whether its action is due.
#[derive(Debug, Clone, Copy, PartialEq, Eq, Structural)]
pub struct Click {
    pub state: ButtonState,
    pub fired: bool,
}

/// A push button under the pointer is hovered, and pressed while the mouse
/// button is down; its action is due when the mouse button is released over
/// it. Away from the pointer it is at rest.
pub open spec fn button_click(inside: bool, down: bool, released: bool) -> Click {
    if inside {
        Click { state: if down { ButtonState::Pressed } else { ButtonState::Hovered }, fired: released }
    } else {
        Click { state: ButtonState::Normal, fired: false }
    }
}

/// A toggle button changes between toggled and not when the mouse button is
/// released over it, and its action is due each time. A toggled button stays
/// toggled whatever the pointer does else; one that is not toggled is
/// hovered under the pointer and at rest away from it.
pub open spec fn toggle_button_click(state: ButtonState, inside: bool, released: bool) -> Click {
    if inside && released {
        Click {
            state: if state == ButtonState::Toggled {
                ButtonState::Hovered
            } else {
                ButtonState::Toggled
            },
            fired: true,
        }
    } else if state == ButtonState::Toggled {
        Click { state, fired: false }
    } else if inside {
        Click { state: ButtonState::Hovered, fired: false }
    } else {
        Click { state: ButtonState::Normal, fired: false }
    }
}

/// How far, in pixels, the picture of a button in a state lies to the right
/// of its picture at rest.
pub open spec fn picture_shift(state: ButtonState) -> int {
    match state {
        ButtonState::Normal => 0,
        ButtonState::Hovered => 16,
        ButtonState::Pressed => 32,
        ButtonState::Toggled => 32,
    }
}

/// What the pointer does to a push button: `inside` says whether it is over
/// the button, `down` and `released` what the mouse button does.
pub fn check_button_click(inside: bool, down: bool, released: bool) -> (click: Click)
    ensures
        click == button_click(inside, down, released),
{
    if inside {
        let state = if down {
            ButtonState::Pressed
        } else {
            ButtonState::Hovered
        };
        Click { state, fired: released }
    } else {
        Click { state: ButtonState::Normal, fired: false }
    }
}

/// What the pointer does to a toggle button in `state`.
pub fn check_toggle_button_click(state: ButtonState, inside: bool, released: bool) -> (click: Click)
    ensures
        click == toggle_button_click(state, inside, released),
{
    let toggled = match state {
        ButtonState::Toggled => true,
        _ => false,
    };
    if inside && released {
        let next = if toggled {
            ButtonState::Hovered
        } else {
            ButtonState::Toggled
        };
        Click { state: next, fired: true }
    } else if toggled {
        Click { state, fired: false }
    } else if inside {
        Click { state: ButtonState::Hovered, fired: false }
    } else {
        Click { state: ButtonState::Normal, fired: false }
    }
}

/// How far, in pixels, the picture of a button in a state lies to the right
/// of its picture at rest.
pub fn button_picture_shift(state: ButtonState) -> (shift: i32)
    ensures
        shift == picture_shift(state),
{
    match state {
        ButtonState::Normal => 0,
        ButtonState::Hovered => 16,
        ButtonState::Pressed => 32,
        ButtonState::Toggled => 32,
    }
}

} // verus!
