use spooky_world::movement::{handle_keys, plan_vertical_step, KeyState, MovementStates};

fn no_keys() -> KeyState {
    KeyState {
        key_a: false,
        arrow_left: false,
        key_d: false,
        arrow_right: false,
        key_w: false,
        arrow_up: false,
        key_s: false,
        arrow_down: false,
        space_released: false,
        shift_left_released: false,
        shift_right_released: false,
    }
}

#[test]
fn movement_state_defaults_to_walking() {
    assert_eq!(MovementStates::default(), MovementStates::Walking);
}

#[test]
fn toggle_switches_and_twice_restores() {
    assert_eq!(MovementStates::Walking.toggled(), MovementStates::Sprinting);
    assert_eq!(MovementStates::Sprinting.toggled(), MovementStates::Walking);
    assert_eq!(MovementStates::Walking.toggled().toggled(), MovementStates::Walking);
    assert_eq!(MovementStates::Sprinting.toggled().toggled(), MovementStates::Sprinting);
}

#[test]
fn select_speed_follows_state() {
    assert_eq!(MovementStates::Walking.select_speed(20.0f32, 40.0f32), 20.0);
    assert_eq!(MovementStates::Sprinting.select_speed(20.0f32, 40.0f32), 40.0);
    assert_eq!(MovementStates::Sprinting.select_speed(50u32, 70u32), 70);
}

#[test]
fn no_keys_no_motion() {
    let out = handle_keys(&no_keys(), MovementStates::Walking);
    assert_eq!((out.x, out.y, out.z), (0, 0, 0));
    assert_eq!(out.state, MovementStates::Walking);
    assert!(!out.reset_view);
}

#[test]
fn arrows_and_letters_steer_alike() {
    let mut keys = no_keys();
    keys.key_a = true;
    assert_eq!(handle_keys(&keys, MovementStates::Walking).x, -1);
    let mut keys = no_keys();
    keys.arrow_left = true;
    keys.key_a = true;
    assert_eq!(handle_keys(&keys, MovementStates::Walking).x, -1);
    let mut keys = no_keys();
    keys.arrow_right = true;
    assert_eq!(handle_keys(&keys, MovementStates::Walking).x, 1);
    let mut keys = no_keys();
    keys.key_w = true;
    assert_eq!(handle_keys(&keys, MovementStates::Walking).z, -1);
    let mut keys = no_keys();
    keys.arrow_down = true;
    assert_eq!(handle_keys(&keys, MovementStates::Walking).z, 1);
}

#[test]
fn opposite_keys_cancel() {
    let mut keys = no_keys();
    keys.key_a = true;
    keys.arrow_right = true;
    keys.arrow_up = true;
    keys.key_s = true;
    let out = handle_keys(&keys, MovementStates::Sprinting);
    assert_eq!((out.x, out.z), (0, 0));
}

#[test]
fn space_jumps_and_shifts_toggle_and_reset() {
    let mut keys = no_keys();
    keys.space_released = true;
    keys.shift_left_released = true;
    keys.shift_right_released = true;
    let out = handle_keys(&keys, MovementStates::Walking);
    assert_eq!(out.y, 1);
    assert_eq!(out.state, MovementStates::Sprinting);
    assert!(out.reset_view);
    let out = handle_keys(&keys, MovementStates::Sprinting);
    assert_eq!(out.state, MovementStates::Walking);
}

#[test]
fn vertical_step_on_ground_jumps() {
    let step = plan_vertical_step(Some(true), false, true);
    assert!(step.on_ground && step.coyote_open && step.jump);
}

#[test]
fn vertical_step_without_report_counts_as_ground() {
    let step = plan_vertical_step(None, false, false);
    assert!(step.on_ground && step.coyote_open && !step.jump);
}

#[test]
fn vertical_step_in_air_with_coyote_time() {
    let step = plan_vertical_step(Some(false), true, true);
    assert!(!step.on_ground && step.coyote_open && step.jump);
}

#[test]
fn vertical_step_in_air_after_coyote_time_cannot_jump() {
    let step = plan_vertical_step(Some(false), false, true);
    assert!(!step.on_ground && !step.coyote_open && !step.jump);
}
