use four_wins::player_input::PlayerInput;

const DROP: u32 = 76;
const LEFT: u32 = 63;
const RIGHT: u32 = 68;
const OTHER: u32 = 5;

fn watched() -> PlayerInput {
    PlayerInput::new(vec![DROP, LEFT, RIGHT])
}

#[test]
fn no_key_is_pressed_at_first() {
    let input = watched();
    assert_eq!(input.checked_keys(), &vec![DROP, LEFT, RIGHT]);
    assert!(!input.just_pressed(DROP));
    assert!(!input.just_pressed(LEFT));
    assert!(!input.just_pressed(RIGHT));
    assert!(!input.just_pressed(OTHER));
}

#[test]
fn a_key_that_goes_down_is_just_pressed() {
    let mut input = watched();
    input.update(&vec![false, true, false]);
    assert!(!input.just_pressed(DROP));
    assert!(input.just_pressed(LEFT));
    assert!(!input.just_pressed(RIGHT));
}

#[test]
fn a_key_that_is_held_is_pressed_once() {
    let mut input = watched();
    input.update(&vec![true, false, false]);
    assert!(input.just_pressed(DROP));
    input.update(&vec![true, false, true]);
    assert!(!input.just_pressed(DROP));
    assert!(input.just_pressed(RIGHT));
    input.update(&vec![true, false, true]);
    assert!(!input.just_pressed(DROP));
    assert!(!input.just_pressed(RIGHT));
}

#[test]
fn a_key_that_goes_down_again_is_pressed_again() {
    let mut input = watched();
    input.update(&vec![true, false, false]);
    assert!(input.just_pressed(DROP));
    input.update(&vec![false, false, false]);
    assert!(!input.just_pressed(DROP));
    input.update(&vec![true, false, false]);
    assert!(input.just_pressed(DROP));
}

#[test]
fn a_key_that_is_not_watched_is_never_pressed() {
    let mut input = watched();
    input.update(&vec![true, true, true]);
    assert!(!input.just_pressed(OTHER));
    assert!(input.just_pressed(DROP));
    assert!(input.just_pressed(LEFT));
    assert!(input.just_pressed(RIGHT));
}

#[test]
fn a_key_that_is_watched_twice_is_held_if_either_reading_says_so() {
    let mut input = PlayerInput::new(vec![LEFT, RIGHT, LEFT]);
    input.update(&vec![false, false, true]);
    assert!(input.just_pressed(LEFT));
    assert!(!input.just_pressed(RIGHT));
    input.update(&vec![true, false, false]);
    assert!(!input.just_pressed(LEFT));
    input.update(&vec![false, false, false]);
    input.update(&vec![false, true, false]);
    assert!(!input.just_pressed(LEFT));
    assert!(input.just_pressed(RIGHT));
}

#[test]
fn no_keys_watched() {
    let mut input = PlayerInput::new(Vec::new());
    input.update(&Vec::new());
    assert!(!input.just_pressed(DROP));
    assert!(input.checked_keys().is_empty());
}
