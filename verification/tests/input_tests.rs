use arcade_core::flappy::input::{
    create_input_binding as flappy_bindings, Button as FlappyButton, KEY_RETURN, KEY_SPACE,
};
use arcade_core::input::{feed_key_event, InputBinding, InputEffect, InputState};
use arcade_core::pong::input::{
    create_input_binding as pong_bindings, Button as PongButton, KEY_DOWN, KEY_S, KEY_UP, KEY_W,
};

#[test]
fn just_pressed_lasts_exactly_one_frame() {
    let mut s = InputState::new();
    assert!(!s.get_button_pressed(7));
    s.update_button_down(7);
    assert!(s.get_button_down(7));
    assert!(s.get_button_pressed(7));
    assert!(!s.get_button_released(7));
    s.update();
    // still held, but the edge is gone
    assert!(s.get_button_down(7));
    assert!(!s.get_button_pressed(7));
    assert!(!s.get_button_released(7));
}

#[test]
fn just_released_lasts_exactly_one_frame() {
    let mut s = InputState::new();
    s.update_button_down(3);
    s.update();
    s.update_button_up(3);
    assert!(s.get_button_up(3));
    assert!(s.get_button_released(3));
    assert!(!s.get_button_pressed(3));
    s.update();
    assert!(!s.get_button_released(3));
    assert!(!s.get_button_pressed(3));
}

#[test]
fn edges_never_both_in_one_frame() {
    let mut s = InputState::new();
    let downs = [true, true, false, true, false, false];
    for &d in downs.iter() {
        s.update_effect(InputEffect::Button(1), d);
        assert!(!(s.get_button_pressed(1) && s.get_button_released(1)));
        s.update();
        assert!(!(s.get_button_pressed(1) && s.get_button_released(1)));
    }
}

#[test]
fn double_down_within_one_tick_gives_one_edge() {
    let mut s = InputState::new();
    s.update_button_down(2);
    s.update_button_down(2);
    assert!(s.get_button_pressed(2));
    s.update();
    // a repeated down-event before the boundary must not re-arm the edge
    s.update_button_down(2);
    assert!(!s.get_button_pressed(2));
}

#[test]
fn reset_forgets_everything() {
    let mut s = InputState::new();
    s.update_button_down(5);
    s.update();
    s.reset_input_state();
    assert!(!s.get_button_down(5));
    assert!(!s.get_button_pressed(5));
    assert!(!s.get_button_released(5));
}

#[test]
fn binding_resolves_bound_keys_and_ignores_others() {
    let b = InputBinding::new().bind_key_to_button(32, 0).bind_key_to_button(13, 1);
    assert_eq!(b.resolve(32), Some(InputEffect::Button(0)));
    assert_eq!(b.resolve(13), Some(InputEffect::Button(1)));
    assert_eq!(b.resolve(99), None);
}

#[test]
fn rebinding_a_key_shadows_the_old_binding() {
    let b = InputBinding::new().bind_key_to_button(32, 0).bind_key_to_button(32, 4);
    assert_eq!(b.resolve(32), Some(InputEffect::Button(4)));
}

#[test]
fn flappy_default_bindings() {
    let b = flappy_bindings();
    assert_eq!(b.resolve(KEY_SPACE), Some(InputEffect::Button(FlappyButton::Space.index())));
    assert_eq!(b.resolve(KEY_RETURN), Some(InputEffect::Button(FlappyButton::Enter.index())));
    assert_eq!(b.resolve(1000), None);
}

#[test]
fn pong_default_bindings() {
    let b = pong_bindings();
    assert_eq!(b.resolve(KEY_W), Some(InputEffect::Button(PongButton::LeftPlayerUp.index())));
    assert_eq!(b.resolve(KEY_S), Some(InputEffect::Button(PongButton::LeftPlayerDown.index())));
    assert_eq!(b.resolve(KEY_UP), Some(InputEffect::Button(PongButton::RightPlayerUp.index())));
    assert_eq!(
        b.resolve(KEY_DOWN),
        Some(InputEffect::Button(PongButton::RightPlayerDown.index()))
    );
}

#[test]
fn key_events_translate_and_repeats_are_ignored() {
    let b = InputBinding::new().bind_key_to_button(32, 0);
    let mut s = InputState::new();
    // a repeated down-event is dropped before translation
    feed_key_event(&b, &mut s, 32, true, true);
    assert!(!s.get_button_down(0));
    // a real down-event lands on the bound logical button
    feed_key_event(&b, &mut s, 32, true, false);
    assert!(s.get_button_down(0));
    assert!(s.get_button_pressed(0));
    // unbound codes are ignored entirely
    feed_key_event(&b, &mut s, 99, false, false);
    assert!(s.get_button_down(0));
    // an up-event is honoured even when flagged as a repeat
    feed_key_event(&b, &mut s, 32, false, true);
    assert!(!s.get_button_down(0));
}
