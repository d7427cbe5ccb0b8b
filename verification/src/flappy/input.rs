//! The flappy game's logical buttons and its default key bindings.

use vstd::prelude::*;

use crate::input::InputBinding;

verus! {

/// Physical code of the space key.
pub const KEY_SPACE: u32 = 32;

/// Physical code of the return key.
pub const KEY_RETURN: u32 = 13;

/// Physical code of the escape key.
pub const KEY_ESCAPE: u32 = 27;

/// The game's logical buttons.
#[derive(Clone, Copy, Debug, Hash, PartialEq, Eq, Structural)]
pub enum Button {
    Enter,
    Quit,
    Space,
}

impl Button {
    /// The id under which the input state tracks this button.
    pub open spec fn spec_index(self) -> u32 {
        match self {
            Button::Enter => 0,
            Button::Quit => 1,
            Button::Space => 2,
        }
    }

    /// The id under which the input state tracks this button.
    pub fn index(self) -> (r: u32)
        ensures
            r == self.spec_index(),
    {
        match self {
            Button::Enter => 0,
            Button::Quit => 1,
            Button::Space => 2,
        }
    }
}

/// The default key bindings: space flaps, return confirms, escape quits;
/// every other key code stays unbound and is ignored.
pub fn create_input_binding() -> (b: InputBinding)
    ensures
        b.spec_resolve(KEY_SPACE) == Some(Button::Space.spec_index()),
        b.spec_resolve(KEY_RETURN) == Some(Button::Enter.spec_index()),
        b.spec_resolve(KEY_ESCAPE) == Some(Button::Quit.spec_index()),
        forall|k: u32|
            k != KEY_SPACE && k != KEY_RETURN && k != KEY_ESCAPE ==> b.spec_resolve(k)
                == None::<u32>,
{
    InputBinding::new().bind_key_to_button(KEY_SPACE, Button::Space.index()).bind_key_to_button(
        KEY_RETURN,
        Button::Enter.index(),
    ).bind_key_to_button(KEY_ESCAPE, Button::Quit.index())
}

} // verus!
