use scene3d::camera::{Camera, CameraEvent, Key, MAX_DISTANCE, MIN_DISTANCE, MAX_SCREEN, MIN_SCREEN};
use scene3d::trig::{QUARTER_TURN, TURN};

#[test]
fn fresh_camera_state() {
    let c = Camera::new();
    assert_eq!(c.distance.raw, 2_000_000);
    assert_eq!(c.vertical_angle.raw, 785_398);
    assert_eq!(c.horizontal_angle.raw, 0);
    assert_eq!(c.screen_width.raw, 800_000_000);
    assert_eq!(c.screen_height.raw, 600_000_000);
    assert_eq!(c.movement_buttons_down, 0);
}

#[test]
fn wheel_zoom_is_a_constant_ratio() {
    let mut c = Camera::new();
    c.process_event(&CameraEvent::MouseWheel { y: 1 });
    assert_eq!(c.distance.raw, 1_800_000);
    let mut c2 = Camera::new();
    c2.process_event(&CameraEvent::MouseWheel { y: -1 });
    assert_eq!(c2.distance.raw, 2_222_222);
}

#[test]
fn wheel_zoom_clamps_at_both_ends() {
    let mut c = Camera::new();
    c.process_event(&CameraEvent::MouseWheel { y: 60 });
    assert_eq!(c.distance.raw, MIN_DISTANCE);
    c.process_event(&CameraEvent::MouseWheel { y: -500 });
    assert_eq!(c.distance.raw, MAX_DISTANCE);
    c.process_event(&CameraEvent::MouseWheel { y: -1 });
    assert_eq!(c.distance.raw, MAX_DISTANCE);
}

#[test]
fn vertical_look_pins_at_the_clamp_bounds() {
    let mut c = Camera::new();
    for _ in 0..5 {
        c.process_event(&CameraEvent::MouseMotion { left_held: true, xrel: 0, yrel: 10_000 });
        assert!(0 <= c.vertical_angle.raw && c.vertical_angle.raw <= QUARTER_TURN);
    }
    assert_eq!(c.vertical_angle.raw, QUARTER_TURN);
    for _ in 0..5 {
        c.process_event(&CameraEvent::MouseMotion { left_held: true, xrel: 0, yrel: -10_000 });
        assert!(0 <= c.vertical_angle.raw && c.vertical_angle.raw <= QUARTER_TURN);
    }
    assert_eq!(c.vertical_angle.raw, 0);
}

#[test]
fn horizontal_look_wraps_within_one_turn() {
    let mut c = Camera::new();
    for _ in 0..50 {
        c.process_event(&CameraEvent::MouseMotion { left_held: true, xrel: 701, yrel: 0 });
        assert!(-TURN < c.horizontal_angle.raw && c.horizontal_angle.raw < TURN);
    }
}

#[test]
fn look_without_button_is_ignored() {
    let mut c = Camera::new();
    c.process_event(&CameraEvent::MouseMotion { left_held: false, xrel: 500, yrel: 500 });
    assert_eq!(c.horizontal_angle.raw, 0);
    assert_eq!(c.vertical_angle.raw, 785_398);
}

#[test]
fn resize_stores_clamped_viewport() {
    let mut c = Camera::new();
    c.process_event(&CameraEvent::WindowResized { width: 1024, height: 768 });
    assert_eq!(c.screen_width.raw, 1_024_000_000);
    assert_eq!(c.screen_height.raw, 768_000_000);
    c.process_event(&CameraEvent::WindowResized { width: 0, height: -5 });
    assert_eq!(c.screen_width.raw, MIN_SCREEN);
    assert_eq!(c.screen_height.raw, MIN_SCREEN);
    c.process_event(&CameraEvent::WindowResized { width: i32::MAX, height: 40_000 });
    assert_eq!(c.screen_width.raw, MAX_SCREEN);
    assert_eq!(c.screen_height.raw, MAX_SCREEN);
}

#[test]
fn movement_keys_set_and_clear_bits() {
    let mut c = Camera::new();
    c.process_event(&CameraEvent::KeyDown { key: Key::W });
    assert_eq!(c.movement_buttons_down, 1);
    c.process_event(&CameraEvent::KeyDown { key: Key::W });
    assert_eq!(c.movement_buttons_down, 1);
    c.process_event(&CameraEvent::KeyDown { key: Key::Q });
    assert_eq!(c.movement_buttons_down, 0b100001);
    c.process_event(&CameraEvent::KeyUp { key: Key::W });
    assert_eq!(c.movement_buttons_down, 0b100000);
    c.process_event(&CameraEvent::KeyDown { key: Key::Other });
    assert_eq!(c.movement_buttons_down, 0b100000);
}

#[test]
fn tick_without_keys_is_a_no_op() {
    let mut c = Camera::new();
    c.tick();
    assert_eq!(c.focus.x.raw, 0);
    assert_eq!(c.focus.y.raw, 0);
    assert_eq!(c.focus.z.raw, 0);
}

#[test]
fn tick_moves_the_focus_with_the_view() {
    let mut c = Camera::new();
    c.process_event(&CameraEvent::KeyDown { key: Key::W });
    c.tick();
    // forward at yaw zero: 2 units * 0.02 along +z
    assert_eq!((c.focus.x.raw, c.focus.y.raw, c.focus.z.raw), (0, 0, 40_000));
    c.process_event(&CameraEvent::KeyUp { key: Key::W });
    c.process_event(&CameraEvent::KeyDown { key: Key::E });
    c.tick();
    // E moves down, unaffected by yaw
    assert_eq!((c.focus.x.raw, c.focus.y.raw, c.focus.z.raw), (0, -40_000, 40_000));
}

#[test]
fn opposite_keys_cancel() {
    let mut c = Camera::new();
    c.process_event(&CameraEvent::KeyDown { key: Key::W });
    c.process_event(&CameraEvent::KeyDown { key: Key::S });
    c.tick();
    assert_eq!((c.focus.x.raw, c.focus.y.raw, c.focus.z.raw), (0, 0, 0));
}

#[test]
fn transform_is_deterministic() {
    let mut c = Camera::new();
    c.process_event(&CameraEvent::MouseMotion { left_held: true, xrel: 37, yrel: -12 });
    c.process_event(&CameraEvent::MouseWheel { y: 2 });
    c.tick();
    let m1 = c.matrix();
    let m2 = c.matrix();
    assert_eq!(m1, m2);
}

#[test]
fn transform_reacts_to_state_changes() {
    let mut c = Camera::new();
    let before = c.matrix();
    c.process_event(&CameraEvent::MouseWheel { y: 3 });
    let after = c.matrix();
    assert_ne!(before, after);
}
