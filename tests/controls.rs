use model_viewer::controls::{
    tick_due, Controls, Key, KeySet, KeyState, SPRINT_SPEED, TICK_NANOS, WALK_SPEED,
};

fn press(c: &mut Controls, k: Key) {
    c.handle_keyboard_input(KeyState::Pressed, Some(k));
}

fn release(c: &mut Controls, k: Key) {
    c.handle_keyboard_input(KeyState::Released, Some(k));
}

fn tap_and_tick(c: &mut Controls, k: Key) {
    press(c, k);
    release(c, k);
    c.update();
    c.end_tick();
}

#[test]
fn next_cycles_through_every_slot_and_wraps() {
    let mut c = Controls::new(3);
    let mut seen = vec![c.shape];
    for _ in 0..4 {
        tap_and_tick(&mut c, Key::Next);
        seen.push(c.shape);
    }
    assert_eq!(seen, vec![0, 1, 2, 3, 0]);
}

#[test]
fn previous_from_first_wraps_to_all_shapes() {
    let mut c = Controls::new(3);
    tap_and_tick(&mut c, Key::Previous);
    assert_eq!(c.shape, 3);
    tap_and_tick(&mut c, Key::Previous);
    assert_eq!(c.shape, 2);
}

#[test]
fn next_and_previous_in_one_tick_cancel() {
    let mut c = Controls::new(2);
    press(&mut c, Key::Next);
    press(&mut c, Key::Previous);
    c.update();
    assert_eq!(c.shape, 0);
}

#[test]
fn selection_with_no_shapes_stays_put() {
    let mut c = Controls::new(0);
    tap_and_tick(&mut c, Key::Next);
    assert_eq!(c.shape, 0);
    tap_and_tick(&mut c, Key::Previous);
    assert_eq!(c.shape, 0);
}

#[test]
fn holding_right_moves_along_x_at_walking_speed() {
    let mut c = Controls::new(1);
    press(&mut c, Key::Right);
    let s = c.update();
    assert_eq!(s.direction.0, [1, 0, 0]);
    assert_eq!(s.speed, WALK_SPEED);
    assert_eq!(s.speed, 2);
    assert_eq!((s.yaw, s.pitch), (0, 0));
}

#[test]
fn sprint_key_selects_the_faster_speed() {
    let mut c = Controls::new(1);
    press(&mut c, Key::Sprint);
    press(&mut c, Key::Forward);
    press(&mut c, Key::Rise);
    let s = c.update();
    assert_eq!(s.speed, SPRINT_SPEED);
    assert_eq!(s.speed, 3);
    assert_eq!(s.direction.0, [0, 1, -1]);
}

#[test]
fn opposite_keys_cancel() {
    let mut c = Controls::new(1);
    press(&mut c, Key::Left);
    press(&mut c, Key::Right);
    press(&mut c, Key::Back);
    press(&mut c, Key::Forward);
    press(&mut c, Key::TurnLeft);
    press(&mut c, Key::TurnRight);
    let s = c.update();
    assert_eq!(s.direction.0, [0, 0, 0]);
    assert_eq!(s.yaw, 0);
}

#[test]
fn turning_keys_give_yaw_and_pitch_steps() {
    let mut c = Controls::new(1);
    press(&mut c, Key::TurnRight);
    press(&mut c, Key::LookUp);
    let s = c.update();
    assert_eq!((s.yaw, s.pitch), (-1, 1));
    release(&mut c, Key::LookUp);
    press(&mut c, Key::LookDown);
    let s = c.update();
    assert_eq!((s.yaw, s.pitch), (-1, -1));
}

#[test]
fn key_events_fill_the_three_sets() {
    let mut c = Controls::new(1);
    press(&mut c, Key::Other(42));
    assert!(c.key_down(&Key::Other(42)));
    assert!(c.key_pressed(&Key::Other(42)));
    assert!(!c.key_released(&Key::Other(42)));
    release(&mut c, Key::Other(42));
    assert!(c.key_up(&Key::Other(42)));
    assert!(c.key_released(&Key::Other(42)));
    assert!(c.key_pressed(&Key::Other(42)));
    c.handle_keyboard_input(KeyState::Pressed, None);
    assert!(c.key_up(&Key::Other(42)));
}

#[test]
fn end_tick_forgets_presses_but_keeps_held_keys() {
    let mut c = Controls::new(1);
    press(&mut c, Key::Right);
    press(&mut c, Key::Left);
    release(&mut c, Key::Left);
    c.end_tick();
    assert!(c.key_down(&Key::Right));
    assert!(!c.key_pressed(&Key::Right));
    assert!(!c.key_released(&Key::Left));
    assert!(c.key_up(&Key::Left));
}

#[test]
fn drawn_shapes_follow_the_selection() {
    let mut c = Controls::new(3);
    assert_eq!(c.drawn_shapes(), (0, 1));
    tap_and_tick(&mut c, Key::Previous);
    assert_eq!(c.drawn_shapes(), (0, 3));
}

#[test]
fn key_set_insert_and_remove() {
    let mut s = KeySet::new();
    s.insert(Key::Next);
    s.insert(Key::Next);
    s.insert(Key::Sprint);
    assert!(s.contains(&Key::Next));
    s.remove(&Key::Next);
    assert!(!s.contains(&Key::Next));
    assert!(s.contains(&Key::Sprint));
    s.clear();
    assert!(!s.contains(&Key::Sprint));
}

#[test]
fn tick_is_due_after_one_period() {
    assert!(!tick_due(0));
    assert!(!tick_due(TICK_NANOS - 1));
    assert!(tick_due(TICK_NANOS));
    assert!(tick_due(1_000_000_000));
}
