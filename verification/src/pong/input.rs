//! The paddle game's logical buttons and its default key bindings.

use vstd::prelude::*;

use crate::input::InputBinding;

verus! {

/// Physical code of the return key.
pub const KEY_RETURN: u32 = 13;

/// Physical code of the escape key.
pub const KEY_ESCAPE: u32 = 27;

/// Physical code of the up-arrow key.
pub const KEY_UP: u32 = 38;

/// Physical code of the down-arrow key.
pub const KEY_DOWN: u32 = 40;

/// Physical code of the `S` key.
pub const KEY_S: u32 = 83;

/// Physical code of the `W` key.
pub const KEY_W: u32 = 87;

/// The game's logical buttons.
#[derive(Clone, Copy, Debug, Hash, PartialEq, Eq, Structural)]
pub enum Button {
    Enter,
    Quit,
    LeftPlayerUp,
    LeftPlayerDown,
    RightPlayerUp,
    RightPlayerDown,
}

impl Button {
    /// The id under which the input state tracks this button.
    pub open spec fn spec_index(self) -> u32 {
        match self {
            Button::Enter => 0,
            Button::Quit => 1,
            Button::LeftPlayerUp => 2,
            Button::LeftPlayerDown => 3,
            Button::RightPlayerUp => 4,
            Button::RightPlayerDown => 5,
        }
    }

    /// The id under which the input state tracks this button.
    pub fn index(self) -> (r: u32)
        ensures
            r == self.spec_index(),
    {
        match self {
            Button::Enter => 0,
            Button::Quit => 1,
            Button::LeftPlayerUp => 2,
            Button::LeftPlayerDown => 3,
            Button::RightPlayerUp => 4,
            Button::RightPlayerDown => 5,
        }
    }
}

/// The default key bindings: W/S drive the left paddle, the arrows the right
/// one, return confirms, escape quits; every other key code stays unbound.
pub fn create_input_binding() -> (b: InputBinding)
    ensures
        b.spec_resolve(KEY_W) == Some(Button::LeftPlayerUp.spec_index()),
        b.spec_resolve(KEY_S) == Some(Button::LeftPlayerDown.spec_index()),
        b.spec_resolve(KEY_UP) == Some(Button::RightPlayerUp.spec_index()),
        b.spec_resolve(KEY_DOWN) == Some(Button::RightPlayerDown.spec_index()),
        b.spec_resolve(KEY_RETURN) == Some(Button::Enter.spec_index()),
        b.spec_resolve(KEY_ESCAPE) == Some(Button::Quit.spec_index()),
        forall|k: u32|
            k != KEY_W && k != KEY_S && k != KEY_UP && k != KEY_DOWN && k != KEY_RETURN && k
                != KEY_ESCAPE ==> b.spec_resolve(k) == None::<u32>,
{
    InputBinding::new().bind_key_to_button(KEY_W, Button::LeftPlayerUp.index()).bind_key_to_button(
        KEY_S,
        Button::LeftPlayerDown.index(),
    ).bind_key_to_button(KEY_UP, Button::RightPlayerUp.index()).bind_key_to_button(
        KEY_DOWN,
        Button::RightPlayerDown.index(),
    ).bind_key_to_button(KEY_RETURN, Button::Enter.index()).bind_key_to_button(
        KEY_ESCAPE,
        Button::Quit.index(),
    )
}

} // verus!
