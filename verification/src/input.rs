//! Edge-triggered logical button state, decoupled from physical key codes by a
//! binding table. Each logical button keeps its level for the current frame
//! and for the previous one; `just pressed` / `just released` edges are derived
//! from the pair, so an edge is observable for exactly one frame.

use vstd::prelude::*;

verus! {

/// Level state of one logical button across a frame boundary.
#[derive(Clone, Copy, Debug, PartialEq, Eq, Structural)]
pub struct ButtonState {
    pub pressed: bool,
    pub pressed_last_frame: bool,
}

impl ButtonState {
    /// State of a button that was never touched.
    pub open spec fn initial() -> ButtonState {
        ButtonState { pressed: false, pressed_last_frame: false }
    }

    /// Effect of a physical down (`started == true`) or up event.
    pub open spec fn spec_effect(self, started: bool) -> ButtonState {
        ButtonState { pressed: started, pressed_last_frame: self.pressed_last_frame }
    }

    /// Effect of a frame boundary: the current level becomes last frame's.
    pub open spec fn spec_frame(self) -> ButtonState {
        ButtonState { pressed: self.pressed, pressed_last_frame: self.pressed }
    }

    /// The button went down this frame (edge, not level).
    pub open spec fn spec_just_pressed(self) -> bool {
        self.pressed && !self.pressed_last_frame
    }

    /// The button went up this frame (edge, not level).
    pub open spec fn spec_just_released(self) -> bool {
        !self.pressed && self.pressed_last_frame
    }
}

impl Default for ButtonState {
    fn default() -> (r: ButtonState)
        ensures
            r == ButtonState::initial(),
    {
        ButtonState { pressed: false, pressed_last_frame: false }
    }
}

/// A translated physical event: which logical button it affects.
#[derive(Clone, Copy, Debug, PartialEq, Eq, Structural)]
pub enum InputEffect {
    Button(u32),
}

impl InputEffect {
    /// The logical button this effect targets.
    pub open spec fn target(self) -> int {
        match self {
            InputEffect::Button(b) => b as int,
        }
    }
}

/// Per-frame state of every logical button, keyed by button id.
pub struct InputState {
    buttons: Vec<ButtonState>,
}

impl InputState {
    /// The state of button `b`; buttons never touched are at their initial state.
    pub closed spec fn btn(self, b: int) -> ButtonState {
        if 0 <= b < self.buttons@.len() {
            self.buttons@[b]
        } else {
            ButtonState::initial()
        }
    }

    pub fn new() -> (s: InputState)
        ensures
            forall|b: int| s.btn(b) == ButtonState::initial(),
    {
        InputState { buttons: Vec::new() }
    }

    /// Applies a translated physical event: sets the level of the targeted
    /// button, leaving every other button and all last-frame levels alone.
    pub fn update_effect(&mut self, effect: InputEffect, started: bool)
        ensures
            forall|b: int|
                final(self).btn(b) == if b == effect.target() {
                    old(self).btn(b).spec_effect(started)
                } else {
                    old(self).btn(b)
                },
    {
        let InputEffect::Button(button) = effect;
        let i = button as usize;
        while self.buttons.len() <= i
            invariant
                forall|b: int| self.btn(b) == old(self).btn(b),
            decreases i + 1 - self.buttons@.len(),
        {
            self.buttons.push(ButtonState { pressed: false, pressed_last_frame: false });
        }
        let last = self.buttons[i].pressed_last_frame;
        self.buttons.set(i, ButtonState { pressed: started, pressed_last_frame: last });
    }

    /// Physical key-down handler entry point.
    pub fn update_button_down(&mut self, button: u32)
        ensures
            forall|b: int|
                final(self).btn(b) == if b == button as int {
                    old(self).btn(b).spec_effect(true)
                } else {
                    old(self).btn(b)
                },
    {
        self.update_effect(InputEffect::Button(button), true);
    }

    /// Physical key-up handler entry point.
    pub fn update_button_up(&mut self, button: u32)
        ensures
            forall|b: int|
                final(self).btn(b) == if b == button as int {
                    old(self).btn(b).spec_effect(false)
                } else {
                    old(self).btn(b)
                },
    {
        self.update_effect(InputEffect::Button(button), false);
    }

    /// Frame boundary: copies each button's level into its last-frame level,
    /// exactly once per tick, after all systems have run.
    pub fn update(&mut self)
        ensures
            forall|b: int| final(self).btn(b) == old(self).btn(b).spec_frame(),
    {
        let n = self.buttons.len();
        let mut i: usize = 0;
        while i < n
            invariant
                n == self.buttons@.len(),
                i <= n,
                forall|b: int| i <= b < n ==> self.buttons@[b] == old(self).buttons@[b],
                forall|b: int|
                    0 <= b < i ==> #[trigger] self.buttons@[b] == old(self).buttons@[b].spec_frame(),
            decreases n - i,
        {
            let p = self.buttons[i].pressed;
            self.buttons.set(i, ButtonState { pressed: p, pressed_last_frame: p });
            i = i + 1;
        }
    }

    fn get_button(&self, button: u32) -> (r: ButtonState)
        ensures
            r == self.btn(button as int),
    {
        let i = button as usize;
        if i < self.buttons.len() {
            self.buttons[i]
        } else {
            ButtonState { pressed: false, pressed_last_frame: false }
        }
    }

    /// Level query: the button is currently held.
    pub fn get_button_down(&self, button: u32) -> (r: bool)
        ensures
            r == self.btn(button as int).pressed,
    {
        self.get_button(button).pressed
    }

    /// Level query: the button is currently up.
    pub fn get_button_up(&self, button: u32) -> (r: bool)
        ensures
            r == !self.btn(button as int).pressed,
    {
        !self.get_button(button).pressed
    }

    /// Edge query: the button went down this frame.
    pub fn get_button_pressed(&self, button: u32) -> (r: bool)
        ensures
            r == self.btn(button as int).spec_just_pressed(),
    {
        let b = self.get_button(button);
        b.pressed && !b.pressed_last_frame
    }

    /// Edge query: the button went up this frame.
    pub fn get_button_released(&self, button: u32) -> (r: bool)
        ensures
            r == self.btn(button as int).spec_just_released(),
    {
        let b = self.get_button(button);
        !b.pressed && b.pressed_last_frame
    }

    /// Forgets all levels and edges.
    pub fn reset_input_state(&mut self)
        ensures
            forall|b: int| final(self).btn(b) == ButtonState::initial(),
    {
        let n = self.buttons.len();
        let mut i: usize = 0;
        while i < n
            invariant
                n == self.buttons@.len(),
                i <= n,
                forall|b: int|
                    0 <= b < i ==> #[trigger] self.buttons@[b] == ButtonState::initial(),
            decreases n - i,
        {
            self.buttons.set(i, ButtonState { pressed: false, pressed_last_frame: false });
            i = i + 1;
        }
    }
}

/// A press edge and a release edge are never observable in the same frame.
pub proof fn lemma_edges_exclusive(bs: ButtonState)
    ensures
        !(bs.spec_just_pressed() && bs.spec_just_released()),
{
}

/// A frame boundary clears both edges: whatever happened before it, neither
/// `just pressed` nor `just released` is observable afterwards until a new
/// physical transition arrives.
pub proof fn lemma_frame_clears_edges(bs: ButtonState)
    ensures
        !bs.spec_frame().spec_just_pressed(),
        !bs.spec_frame().spec_just_released(),
{
}

/// A down-transition makes `just pressed` observable for exactly the one
/// frame in which it happened: it holds right after the transition, a repeated
/// down event within the same frame changes nothing, and the next frame
/// boundary ends it.
pub proof fn lemma_press_edge_one_frame(bs: ButtonState)
    ensures
        !bs.pressed_last_frame ==> bs.spec_effect(true).spec_just_pressed(),
        bs.spec_effect(true).spec_effect(true) == bs.spec_effect(true),
        !bs.spec_effect(true).spec_frame().spec_just_pressed(),
{
}

/// The mirror statement for an up-transition and `just released`.
pub proof fn lemma_release_edge_one_frame(bs: ButtonState)
    ensures
        bs.pressed_last_frame ==> bs.spec_effect(false).spec_just_released(),
        bs.spec_effect(false).spec_effect(false) == bs.spec_effect(false),
        !bs.spec_effect(false).spec_frame().spec_just_released(),
{
}

/// Feeds one physical key event through a binding table into the input state,
/// as a key handler does: repeated down-events (held-key auto-repeat) are
/// ignored, unbound codes resolve to nothing, and a bound code sets the level
/// of its logical button.
pub fn feed_key_event(
    binding: &InputBinding,
    input: &mut InputState,
    keycode: u32,
    down: bool,
    repeat: bool,
)
    ensures
        ({
            let hit = binding.spec_resolve(keycode);
            if (down && repeat) || hit is None {
                *final(input) == *old(input)
            } else {
                forall|b: int|
                    final(input).btn(b) == if b == hit->Some_0 as int {
                        old(input).btn(b).spec_effect(down)
                    } else {
                        old(input).btn(b)
                    }
            }
        }),
{
    if down && repeat {
        return ;
    }
    match binding.resolve(keycode) {
        Some(effect) => {
            input.update_effect(effect, down);
        },
        None => {},
    }
}

/// A binding table from physical key codes to logical buttons. Later bindings
/// for the same key shadow earlier ones; unbound codes resolve to nothing.
pub struct InputBinding {
    bindings: Vec<(u32, u32)>,
}

/// The button the first binding for `key` in `s` maps to, if any.
pub open spec fn resolve_seq(s: Seq<(u32, u32)>, key: u32) -> Option<u32>
    decreases s.len(),
{
    if s.len() == 0 {
        None
    } else if s[0].0 == key {
        Some(s[0].1)
    } else {
        resolve_seq(s.drop_first(), key)
    }
}

impl InputBinding {
    /// The logical button `key` is bound to, if any.
    pub closed spec fn spec_resolve(self, key: u32) -> Option<u32> {
        resolve_seq(self.bindings@, key)
    }

    pub fn new() -> (r: InputBinding)
        ensures
            forall|k: u32| r.spec_resolve(k) == None::<u32>,
    {
        InputBinding { bindings: Vec::new() }
    }

    /// Adds a key binding connecting the given key code to the given logical
    /// button, shadowing any earlier binding of the same key.
    pub fn bind_key_to_button(self, keycode: u32, button: u32) -> (r: InputBinding)
        ensures
            r.spec_resolve(keycode) == Some(button),
            forall|k: u32| k != keycode ==> r.spec_resolve(k) == self.spec_resolve(k),
    {
        let mut bindings = self.bindings;
        bindings.insert(0, (keycode, button));
        let r = InputBinding { bindings };
        proof {
            assert(r.bindings@.drop_first() == self.bindings@);
        }
        r
    }

    /// Translates a physical key code into a logical input effect; unbound
    /// codes are ignored.
    pub fn resolve(&self, keycode: u32) -> (r: Option<InputEffect>)
        ensures
            match r {
                Some(e) => self.spec_resolve(keycode) == Some(e->Button_0),
                None => self.spec_resolve(keycode) == None::<u32>,
            },
    {
        let n = self.bindings.len();
        let mut i: usize = 0;
        proof {
            assert(self.bindings@.skip(0) == self.bindings@);
        }
        while i < n
            invariant
                n == self.bindings@.len(),
                i <= n,
                resolve_seq(self.bindings@, keycode) == resolve_seq(
                    self.bindings@.skip(i as int),
                    keycode,
                ),
            decreases n - i,
        {
            let (k, b) = self.bindings[i];
            proof {
                assert(self.bindings@.skip(i as int).drop_first() == self.bindings@.skip(
                    i as int + 1,
                ));
            }
            if k == keycode {
                return Some(InputEffect::Button(b));
            }
            i = i + 1;
        }
        None
    }
}

} // verus!
