use solarscape::input::OppositeKeyState::{PressedFirst, PressedSecond, Released};
use solarscape::input::{handle_key_state, key_state_to_axis, MovementKey, MovementKeys};

#[test]
fn pressing_a_key_sets_its_direction() {
    let mut keys = MovementKeys::new();
    assert_eq!(keys.translation(), (0, 0, 0));
    keys.handle_key(MovementKey::A, true);
    assert_eq!(keys.translation(), (1, 0, 0));
    keys.handle_key(MovementKey::A, false);
    keys.handle_key(MovementKey::D, true);
    assert_eq!(keys.translation(), (-1, 0, 0));
}

#[test]
fn last_pressed_key_of_a_pair_wins() {
    let mut keys = MovementKeys::new();
    keys.handle_key(MovementKey::A, true);
    keys.handle_key(MovementKey::D, true);
    assert_eq!(keys.translation().0, -1);
    keys.handle_key(MovementKey::D, false);
    assert_eq!(keys.translation().0, 1);
    keys.handle_key(MovementKey::A, false);
    assert_eq!(keys.translation().0, 0);
}

#[test]
fn releasing_the_first_key_keeps_the_second() {
    let mut keys = MovementKeys::new();
    keys.handle_key(MovementKey::W, true);
    keys.handle_key(MovementKey::S, true);
    assert_eq!(keys.translation().2, -1);
    keys.handle_key(MovementKey::W, false);
    assert_eq!(keys.translation().2, -1);
    keys.handle_key(MovementKey::S, false);
    assert_eq!(keys.translation().2, 0);
}

#[test]
fn vertical_and_roll_keys() {
    let mut keys = MovementKeys::new();
    keys.handle_key(MovementKey::R, true);
    assert_eq!(keys.translation(), (0, -1, 0));
    keys.handle_key(MovementKey::R, false);
    keys.handle_key(MovementKey::F, true);
    assert_eq!(keys.translation(), (0, 1, 0));
    keys.handle_key(MovementKey::Q, true);
    assert_eq!(keys.roll(), -1);
    keys.handle_key(MovementKey::Q, false);
    keys.handle_key(MovementKey::E, true);
    assert_eq!(keys.roll(), 1);
}

#[test]
fn key_state_table() {
    assert_eq!(handle_key_state(Released, Released, true), (PressedFirst, Released));
    assert_eq!(handle_key_state(Released, PressedFirst, true), (PressedSecond, PressedFirst));
    assert_eq!(handle_key_state(Released, PressedSecond, true), (PressedSecond, PressedFirst));
    assert_eq!(handle_key_state(PressedSecond, PressedFirst, false), (Released, PressedFirst));
    assert_eq!(handle_key_state(PressedFirst, PressedSecond, false), (Released, PressedFirst));
    assert_eq!(handle_key_state(PressedFirst, Released, false), (Released, Released));
    assert_eq!(key_state_to_axis(PressedFirst, Released), -1);
    assert_eq!(key_state_to_axis(PressedFirst, PressedSecond), 1);
    assert_eq!(key_state_to_axis(PressedSecond, PressedFirst), -1);
    assert_eq!(key_state_to_axis(Released, PressedFirst), 1);
    assert_eq!(key_state_to_axis(Released, Released), 0);
}
