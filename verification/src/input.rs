//! Whether the console claims the pointer and the keyboard.

use vstd::prelude::*;

verus! {

/// Lets you know if the mouse is hovering over / interacting with the console.
#[derive(Clone, Copy, Debug, PartialEq, Eq, Structural)]
pub struct ConsoleWantsMouseInput(pub bool);

/// Lets you know if the keyboard is interacting with the console.
#[derive(Clone, Copy, Debug, PartialEq, Eq, Structural)]
pub struct ConsoleWantsKeyboardInput(pub bool);

impl Default for ConsoleWantsMouseInput {
    fn default() -> (wants: ConsoleWantsMouseInput)
        ensures
            wants == ConsoleWantsMouseInput(false),
    {
        ConsoleWantsMouseInput(false)
    }
}

impl Default for ConsoleWantsKeyboardInput {
    fn default() -> (wants: ConsoleWantsKeyboardInput)
        ensures
            wants == ConsoleWantsKeyboardInput(false),
    {
        ConsoleWantsKeyboardInput(false)
    }
}

/// Records what the console's window reports this frame: the console wants
/// the mouse while the pointer is over its area or it asks for pointer input,
/// and the keyboard while it asks for keyboard input.
pub fn check_console_inputs(
    console_wants_mouse_input: &mut ConsoleWantsMouseInput,
    console_wants_keyboard_input: &mut ConsoleWantsKeyboardInput,
    pointer_over_area: bool,
    wants_pointer_input: bool,
    wants_keyboard_input: bool,
)
    ensures
        final(console_wants_mouse_input).0 == (pointer_over_area || wants_pointer_input),
        final(console_wants_keyboard_input).0 == wants_keyboard_input,
{
    if pointer_over_area || wants_pointer_input {
        console_wants_mouse_input.0 = true;
    } else {
        console_wants_mouse_input.0 = false;
    }
    if wants_keyboard_input {
        console_wants_keyboard_input.0 = true;
    } else {
        console_wants_keyboard_input.0 = false;
    }
}

} // verus!
