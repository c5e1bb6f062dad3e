use vstd::prelude::*;

use crate::fixed::{
    iclamp, lemma_tdiv_in, scale, sdivq, smul, tdiv, tdiv_i64, tdiv_i128, tmod, tmod_i64,
    lincomb3, Scalar, SCALE,
};
use crate::trig::{cos_num, sin_num, QUARTER_TURN, TURN};
use crate::vec3::{in_range, Vec3};

verus! {

/// Closest the camera may zoom in, in raw ticks (0.2 units).
pub const MIN_DISTANCE: i64 = 200_000;

/// Farthest the camera may zoom out, in raw ticks (100 units).
pub const MAX_DISTANCE: i64 = 100_000_000;

/// Largest focus coordinate magnitude the camera keeps, in raw ticks
/// (one million units): focus translation saturates here.
pub const FOCUS_LIMIT: i64 = 1_000_000_000_000;

/// Smallest stored viewport dimension, in raw ticks (one pixel).
pub const MIN_SCREEN: i64 = 1_000_000;

/// Largest stored viewport dimension, in raw ticks (32768 pixels).
pub const MAX_SCREEN: i64 = 32_768_000_000;

/// Movement speed per tick as a fraction of the distance (0.02).
pub const MOVE_FACTOR: i64 = 20_000;

/// A full turn of raw angle per reference viewport length, the
/// numerator of the look sensitivity.
pub const TURN_TICKS: i64 = TURN * SCALE;

/// The movement keys the camera recognizes; any other key is `Other`.
#[derive(Clone, Copy, Debug, PartialEq, Eq, Structural)]
pub enum Key {
    W,
    A,
    S,
    D,
    E,
    Q,
    Other,
}

/// The input events the camera consumes, already separated from the
/// windowing layer's own event type.
#[derive(Clone, Copy, Debug, PartialEq, Eq, Structural)]
pub enum CameraEvent {
    KeyDown { key: Key },
    KeyUp { key: Key },
    MouseWheel { y: i32 },
    MouseMotion { left_held: bool, xrel: i32, yrel: i32 },
    WindowResized { width: i32, height: i32 },
}

/// The movement bit a key controls, if any.
pub open spec fn movement_button_num(key: Key) -> Option<u8> {
    match key {
        Key::W => Some(0u8),
        Key::A => Some(1u8),
        Key::S => Some(2u8),
        Key::D => Some(3u8),
        Key::E => Some(4u8),
        Key::Q => Some(5u8),
        Key::Other => None,
    }
}

/// Map a key to the movement bit it controls.
pub fn movement_button(key: Key) -> (r: Option<u8>)
    ensures
        r == movement_button_num(key),
{
    match key {
        Key::W => Some(0),
        Key::A => Some(1),
        Key::S => Some(2),
        Key::D => Some(3),
        Key::E => Some(4),
        Key::Q => Some(5),
        Key::Other => None,
    }
}

/// The mask after a key goes down.
pub open spec fn mask_down(mask: u8, key: Key) -> u8 {
    match movement_button_num(key) {
        Some(b) => mask | (1u8 << b),
        None => mask,
    }
}

/// The mask after a key goes up.
pub open spec fn mask_up(mask: u8, key: Key) -> u8 {
    match movement_button_num(key) {
        Some(b) => mask & !(1u8 << b),
        None => mask,
    }
}

/// The distance after `k` inward wheel notches: each one multiplies by
/// nine tenths, truncating.
pub open spec fn zoom_in_steps(d: int, k: nat) -> int
    decreases k,
{
    if k == 0 {
        d
    } else {
        tdiv(zoom_in_steps(d, (k - 1) as nat) * 9, 10)
    }
}

/// The distance after `k` outward wheel notches: each one multiplies
/// by ten ninths, truncating, and saturates at the zoom ceiling.
pub open spec fn zoom_out_steps(d: int, k: nat) -> int
    decreases k,
{
    if k == 0 {
        d
    } else {
        let n = tdiv(zoom_out_steps(d, (k - 1) as nat) * 10, 9);
        if n > MAX_DISTANCE as int {
            MAX_DISTANCE as int
        } else {
            n
        }
    }
}

/// The distance after a wheel event of `y` notches, clamped into the
/// zoom range.
pub open spec fn zoom_spec(d: int, y: int) -> int {
    let z = if y >= 0 {
        zoom_in_steps(d, y as nat)
    } else {
        zoom_out_steps(d, (-y) as nat)
    };
    iclamp(z, MIN_DISTANCE as int, MAX_DISTANCE as int)
}

/// The yaw after a sideways look of `xrel` pixels on a viewport
/// `width` ticks wide, wrapped into one signed turn.
pub open spec fn look_h(h: int, xrel: int, width: int) -> int {
    tmod(h - tdiv(xrel * (TURN_TICKS as int), width), TURN as int)
}

/// The pitch after a vertical look of `yrel` pixels on a viewport
/// `height` ticks tall, clamped between level and straight down.
pub open spec fn look_v(v: int, yrel: int, height: int) -> int {
    iclamp(v + tdiv(yrel * (TURN_TICKS as int), height), 0, QUARTER_TURN as int)
}

/// A resized viewport dimension of `p` pixels, stored clamped.
pub open spec fn resize_dim(p: int) -> int {
    iclamp(p * scale(), MIN_SCREEN as int, MAX_SCREEN as int)
}

/// The camera state that one input event leaves behind.
pub open spec fn event_step(c: Camera, e: CameraEvent) -> Camera {
    match e {
        CameraEvent::KeyDown { key } => Camera {
            movement_buttons_down: mask_down(c.movement_buttons_down, key),
            ..c
        },
        CameraEvent::KeyUp { key } => Camera {
            movement_buttons_down: mask_up(c.movement_buttons_down, key),
            ..c
        },
        CameraEvent::MouseWheel { y } => Camera {
            distance: Scalar { raw: zoom_spec(c.distance@, y as int) as i64 },
            ..c
        },
        CameraEvent::MouseMotion { left_held, xrel, yrel } => if left_held {
            Camera {
                horizontal_angle: Scalar {
                    raw: look_h(c.horizontal_angle@, xrel as int, c.screen_width@) as i64,
                },
                vertical_angle: Scalar {
                    raw: look_v(c.vertical_angle@, yrel as int, c.screen_height@) as i64,
                },
                ..c
            }
        } else {
            c
        },
        CameraEvent::WindowResized { width, height } => Camera {
            screen_width: Scalar { raw: resize_dim(width as int) as i64 },
            screen_height: Scalar { raw: resize_dim(height as int) as i64 },
            ..c
        },
    }
}

/// The orbit camera: a focus point, a zoom distance, two orientation
/// angles, the viewport size, and the fixed projection parameters.
#[derive(Clone, Copy, Debug, PartialEq, Eq, Structural)]
pub struct Camera {
    pub focus: Vec3,
    pub distance: Scalar,
    pub vertical_angle: Scalar,
    pub horizontal_angle: Scalar,
    pub screen_width: Scalar,
    pub screen_height: Scalar,
    pub fov: Scalar,
    pub near_clip: Scalar,
    pub far_clip: Scalar,
    pub movement_buttons_down: u8,
}

impl Camera {
    /// The state invariant: distance, angles and viewport are clamped
    /// into their ranges, the focus is within the world bound, and the
    /// projection parameters are the fixed construction values.
    pub open spec fn wf(self) -> bool {
        &&& MIN_DISTANCE as int <= self.distance@ <= MAX_DISTANCE as int
        &&& 0 <= self.vertical_angle@ <= QUARTER_TURN as int
        &&& -(TURN as int) < self.horizontal_angle@ < TURN as int
        &&& MIN_SCREEN as int <= self.screen_width@ <= MAX_SCREEN as int
        &&& MIN_SCREEN as int <= self.screen_height@ <= MAX_SCREEN as int
        &&& in_range(self.focus, FOCUS_LIMIT as int)
        &&& self.fov@ == QUARTER_TURN as int
        &&& self.near_clip@ == MIN_DISTANCE as int
        &&& self.far_clip@ == MAX_DISTANCE as int
    }

    /// A fresh camera: two units out, pitched an eighth turn down,
    /// yaw zero, an 800 by 600 viewport, a quarter-turn field of view,
    /// and no keys held.
    pub fn new() -> (r: Camera)
        ensures
            r.wf(),
            r.focus.x@ == 0 && r.focus.y@ == 0 && r.focus.z@ == 0,
            r.distance@ == 2_000_000,
            r.vertical_angle@ == 785_398,
            r.horizontal_angle@ == 0,
            r.screen_width@ == 800_000_000,
            r.screen_height@ == 600_000_000,
            r.movement_buttons_down == 0u8,
    {
        Camera {
            focus: Vec3::zero(),
            distance: Scalar { raw: 2_000_000 },
            vertical_angle: Scalar { raw: 785_398 },
            horizontal_angle: Scalar { raw: 0 },
            screen_width: Scalar { raw: 800_000_000 },
            screen_height: Scalar { raw: 600_000_000 },
            fov: Scalar { raw: QUARTER_TURN },
            near_clip: Scalar { raw: MIN_DISTANCE },
            far_clip: Scalar { raw: MAX_DISTANCE },
            movement_buttons_down: 0,
        }
    }

    /// Feed one input event to the camera. Movement keys set or clear
    /// their mask bit; the wheel zooms by a constant ratio per notch
    /// and clamps; a drag with the left button held turns the camera,
    /// wrapping the yaw and clamping the pitch; a resize stores the
    /// clamped viewport; everything else is ignored.
    pub fn process_event(&mut self, event: &CameraEvent)
        requires
            old(self).wf(),
        ensures
            *final(self) == event_step(*old(self), *event),
            final(self).wf(),
    {
        match *event {
            CameraEvent::KeyDown { key } => {
                if let Some(b) = movement_button(key) {
                    self.movement_buttons_down = self.movement_buttons_down | (1u8 << b);
                }
            },
            CameraEvent::KeyUp { key } => {
                if let Some(b) = movement_button(key) {
                    self.movement_buttons_down = self.movement_buttons_down & !(1u8 << b);
                }
            },
            CameraEvent::MouseWheel { y } => {
                let mut d: i64 = self.distance.raw;
                if y >= 0 {
                    let k: u32 = y as u32;
                    let mut i: u32 = 0;
                    while i < k
                        invariant
                            0 <= i <= k,
                            0 <= d <= MAX_DISTANCE,
                            d == zoom_in_steps(old(self).distance@, i as nat),
                        decreases k - i,
                    {
                        d = tdiv_i64(d * 9, 10);
                        i = i + 1;
                    }
                } else {
                    let k: u64 = (-(y as i64)) as u64;
                    let mut i: u64 = 0;
                    while i < k
                        invariant
                            0 <= i <= k,
                            0 <= d <= MAX_DISTANCE,
                            d == zoom_out_steps(old(self).distance@, i as nat),
                        decreases k - i,
                    {
                        let n: i64 = tdiv_i64(d * 10, 9);
                        d = if n > MAX_DISTANCE {
                            MAX_DISTANCE
                        } else {
                            n
                        };
                        i = i + 1;
                    }
                }
                let clamped: i64 = if d < MIN_DISTANCE {
                    MIN_DISTANCE
                } else if d > MAX_DISTANCE {
                    MAX_DISTANCE
                } else {
                    d
                };
                self.distance = Scalar { raw: clamped };
            },
            CameraEvent::MouseMotion { left_held, xrel, yrel } => {
                if left_held {
                    let dh: i64 = look_delta(xrel, self.screen_width.raw);
                    let h: i64 = tmod_i64(self.horizontal_angle.raw - dh, TURN);
                    let dv: i64 = look_delta(yrel, self.screen_height.raw);
                    let vsum: i64 = self.vertical_angle.raw + dv;
                    let v: i64 = if vsum < 0 {
                        0
                    } else if vsum > QUARTER_TURN {
                        QUARTER_TURN
                    } else {
                        vsum
                    };
                    self.horizontal_angle = Scalar { raw: h };
                    self.vertical_angle = Scalar { raw: v };
                }
            },
            CameraEvent::WindowResized { width, height } => {
                self.screen_width = Scalar { raw: resize_dim_exec(width) };
                self.screen_height = Scalar { raw: resize_dim_exec(height) };
            },
        }
    }
}

/// Whether movement bit `b` is held in `mask`.
pub open spec fn held(mask: u8, b: u8) -> bool {
    (mask >> b) & 1u8 == 1u8
}

/// The x component of the raw movement direction: strafe left minus
/// strafe right.
pub open spec fn movement_x(mask: u8) -> int {
    (if held(mask, 1) {
        scale()
    } else {
        0
    }) - (if held(mask, 3) {
        scale()
    } else {
        0
    })
}

/// The y component of the raw movement direction: up minus down.
pub open spec fn movement_y(mask: u8) -> int {
    (if held(mask, 5) {
        scale()
    } else {
        0
    }) - (if held(mask, 4) {
        scale()
    } else {
        0
    })
}

/// The z component of the raw movement direction: forward minus back.
pub open spec fn movement_z(mask: u8) -> int {
    (if held(mask, 0) {
        scale()
    } else {
        0
    }) - (if held(mask, 2) {
        scale()
    } else {
        0
    })
}

/// The focus after one tick: the held directions summed, scaled by the
/// distance and the speed factor, rotated to face the camera's yaw,
/// added to the focus, and saturated at the world bound.
pub open spec fn tick_focus(c: Camera) -> (int, int, int) {
    let sx = smul(smul(movement_x(c.movement_buttons_down), c.distance@), MOVE_FACTOR as int);
    let sy = smul(smul(movement_y(c.movement_buttons_down), c.distance@), MOVE_FACTOR as int);
    let sz = smul(smul(movement_z(c.movement_buttons_down), c.distance@), MOVE_FACTOR as int);
    let h = c.horizontal_angle@;
    let rx = lincomb3(cos_num(h), sx, 0, sy, sin_num(h), sz);
    let ry = lincomb3(0, sx, scale(), sy, 0, sz);
    let rz = lincomb3(-sin_num(h), sx, 0, sy, cos_num(h), sz);
    (
        iclamp(c.focus.x@ + rx, -(FOCUS_LIMIT as int), FOCUS_LIMIT as int),
        iclamp(c.focus.y@ + ry, -(FOCUS_LIMIT as int), FOCUS_LIMIT as int),
        iclamp(c.focus.z@ + rz, -(FOCUS_LIMIT as int), FOCUS_LIMIT as int),
    )
}

/// The camera state one tick leaves behind: only the focus moves.
pub open spec fn tick_step(c: Camera) -> Camera {
    let (fx, fy, fz) = tick_focus(c);
    Camera {
        focus: Vec3 {
            x: Scalar { raw: fx as i64 },
            y: Scalar { raw: fy as i64 },
            z: Scalar { raw: fz as i64 },
        },
        ..c
    }
}

/// The world-space camera position: start a distance out along the
/// negative z axis, pitch by the negated vertical angle, yaw by the
/// horizontal angle, and move to the focus.
pub open spec fn camera_position(c: Camera) -> (int, int, int) {
    let d = c.distance@;
    let v = c.vertical_angle@;
    let h = c.horizontal_angle@;
    let p1x = lincomb3(scale(), 0, 0, 0, 0, -d);
    let p1y = lincomb3(0, 0, cos_num(-v), 0, -sin_num(-v), -d);
    let p1z = lincomb3(0, 0, sin_num(-v), 0, cos_num(-v), -d);
    let p2x = lincomb3(cos_num(h), p1x, 0, p1y, sin_num(h), p1z);
    let p2y = lincomb3(0, p1x, scale(), p1y, 0, p1z);
    let p2z = lincomb3(-sin_num(h), p1x, 0, p1y, cos_num(h), p1z);
    (c.focus.x@ + p2x, c.focus.y@ + p2y, c.focus.z@ + p2z)
}

/// The view-projection transform of a camera state: the projection,
/// then the pitch, then the negated yaw, then the translation to the
/// camera position, composed in that order.
pub open spec fn camera_matrix_spec(c: Camera) -> crate::mat4::Mat4 {
    let pos = camera_position(c);
    let aspect = sdivq(c.screen_width@, c.screen_height@);
    let p = crate::mat4::perspective_spec(aspect, c.fov@, c.near_clip@, c.far_clip@);
    let v = crate::mat4::rotation_x_spec(c.vertical_angle@);
    let h = crate::mat4::rotation_y_spec(-c.horizontal_angle@);
    let t = crate::mat4::translation_spec(pos.0, pos.1, pos.2);
    crate::mat4::mul_spec(crate::mat4::mul_spec(crate::mat4::mul_spec(p, v), h), t)
}

impl Camera {
    /// Advance the camera by one frame: translate the focus along the
    /// held movement directions, scaled by the current distance and
    /// rotated to the current yaw. A no-op when no key is held.
    pub fn tick(&mut self)
        requires
            old(self).wf(),
        ensures
            *final(self) == tick_step(*old(self)),
            final(self).wf(),
    {
        let m: u8 = self.movement_buttons_down;
        let mx: i64 = (if (m >> 1u8) & 1u8 == 1u8 {
            SCALE
        } else {
            0
        }) - (if (m >> 3u8) & 1u8 == 1u8 {
            SCALE
        } else {
            0
        });
        let my: i64 = (if (m >> 5u8) & 1u8 == 1u8 {
            SCALE
        } else {
            0
        }) - (if (m >> 4u8) & 1u8 == 1u8 {
            SCALE
        } else {
            0
        });
        let mz: i64 = (if (m >> 0u8) & 1u8 == 1u8 {
            SCALE
        } else {
            0
        }) - (if (m >> 2u8) & 1u8 == 1u8 {
            SCALE
        } else {
            0
        });
        proof {
            lemma_move_scale_bounds(mx as int, self.distance@);
            lemma_move_scale_bounds(my as int, self.distance@);
            lemma_move_scale_bounds(mz as int, self.distance@);
        }
        let dir = Vec3::new(Scalar { raw: mx }, Scalar { raw: my }, Scalar { raw: mz });
        let scaled = dir.scale(self.distance).scale(Scalar { raw: MOVE_FACTOR });
        let rot = crate::mat3::Mat3::rot_y(self.horizontal_angle);
        proof {
            lemma_rotated_move_bounds(rot, scaled);
        }
        let moved = rot.mul_vec(scaled);
        self.focus = Vec3 {
            x: Scalar { raw: clamp_focus(self.focus.x.raw + moved.x.raw) },
            y: Scalar { raw: clamp_focus(self.focus.y.raw + moved.y.raw) },
            z: Scalar { raw: clamp_focus(self.focus.z.raw + moved.z.raw) },
        };
    }

    /// The view-projection transform of the current state, composed as
    /// projection times pitch rotation times negated yaw rotation
    /// times translation; a pure function of the state.
    pub fn matrix(&self) -> (r: crate::mat4::Mat4)
        requires
            self.wf(),
        ensures
            r == camera_matrix_spec(*self),
    {
        let negd = Scalar { raw: -self.distance.raw };
        let start = Vec3::z(negd);
        let pitch = crate::mat3::Mat3::rot_x(Scalar { raw: -self.vertical_angle.raw });
        proof {
            lemma_position_step_bounds(pitch, start, 100_000_000int);
        }
        let p1 = pitch.mul_vec(start);
        let yaw = crate::mat3::Mat3::rot_y(self.horizontal_angle);
        proof {
            lemma_position_step_bounds(yaw, p1, 300_000_000int);
        }
        let p2 = yaw.mul_vec(p1);
        let pos = self.focus.add(p2);
        let t = crate::mat4::Mat4::translation(pos);
        let vm = crate::mat4::Mat4::rotation_x(self.vertical_angle);
        let hm = crate::mat4::Mat4::rotation_y(Scalar { raw: -self.horizontal_angle.raw });
        proof {
            lemma_tdiv_in(self.screen_width@ * scale(), self.screen_height@,
                32_768_000_000_000_000int);
            crate::fixed::lemma_tdiv_pos(self.screen_width@ * scale(), self.screen_height@);
        }
        let aspect = self.screen_width.div(self.screen_height);
        let pm = crate::mat4::Mat4::perspective(aspect, self.fov, self.near_clip, self.far_clip);
        proof {
            crate::mat4::lemma_mat4_mul_in(pm, vm, crate::mat4::PROJ_LIMIT as int, 1_000_000int);
            assert((4 * (32_000_000_000int * 1_000_000int)) / scale() == 128_000_000_000int)
                by (nonlinear_arith)
                requires
                    scale() == 1_000_000,
            ;
        }
        let m1 = pm.mul_mat(vm);
        proof {
            crate::mat4::lemma_mat4_mul_in(m1, hm, 128_000_000_000int, 1_000_000int);
            assert((4 * (128_000_000_000int * 1_000_000int)) / scale() == 512_000_000_000int)
                by (nonlinear_arith)
                requires
                    scale() == 1_000_000,
            ;
        }
        let m2 = m1.mul_mat(hm);
        proof {
            crate::mat4::lemma_mat4_mul_in(m2, t, 512_000_000_000int, 1_001_000_000_000int);
            assert((4 * (512_000_000_000int * 1_001_000_000_000int)) / scale()
                == 2_050_048_000_000_000_000int) by (nonlinear_arith)
                requires
                    scale() == 1_000_000,
            ;
        }
        m2.mul_mat(t)
    }
}

/// Movement components scaled by the distance and speed factor stay
/// small.
proof fn lemma_move_scale_bounds(mc: int, d: int)
    requires
        -1_000_000 <= mc <= 1_000_000,
        0 <= d <= MAX_DISTANCE,
    ensures
        -100_000_000 <= smul(mc, d) <= 100_000_000,
        -2_000_000 <= smul(smul(mc, d), MOVE_FACTOR as int) <= 2_000_000,
{
    crate::fixed::lemma_abs_mul_bound(mc, d, 1_000_000int, 100_000_000int);
    lemma_tdiv_in(mc * d, scale(), 100_000_000_000_000int);
    crate::fixed::lemma_abs_mul_bound(smul(mc, d), MOVE_FACTOR as int, 100_000_000int,
        20_000int);
    lemma_tdiv_in(smul(mc, d) * (MOVE_FACTOR as int), scale(), 2_000_000_000_000int);
}

/// A rotation applied to a small movement vector fits comfortably.
proof fn lemma_rotated_move_bounds(m: crate::mat3::Mat3, v: Vec3)
    requires
        crate::mat3::mat3_in_range(m, 1_000_000int),
        in_range(v, 2_000_000int),
    ensures
        i64::MIN <= lincomb3(m.x.x@, v.x@, m.y.x@, v.y@, m.z.x@, v.z@) <= i64::MAX,
        i64::MIN <= lincomb3(m.x.y@, v.x@, m.y.y@, v.y@, m.z.y@, v.z@) <= i64::MAX,
        i64::MIN <= lincomb3(m.x.z@, v.x@, m.y.z@, v.y@, m.z.z@, v.z@) <= i64::MAX,
        -6_000_000 <= lincomb3(m.x.x@, v.x@, m.y.x@, v.y@, m.z.x@, v.z@) <= 6_000_000,
        -6_000_000 <= lincomb3(m.x.y@, v.x@, m.y.y@, v.y@, m.z.y@, v.z@) <= 6_000_000,
        -6_000_000 <= lincomb3(m.x.z@, v.x@, m.y.z@, v.y@, m.z.z@, v.z@) <= 6_000_000,
{
    crate::fixed::lemma_lincomb3_in(m.x.x@, v.x@, m.y.x@, v.y@, m.z.x@, v.z@, 1_000_000int,
        2_000_000int);
    crate::fixed::lemma_lincomb3_in(m.x.y@, v.x@, m.y.y@, v.y@, m.z.y@, v.z@, 1_000_000int,
        2_000_000int);
    crate::fixed::lemma_lincomb3_in(m.x.z@, v.x@, m.y.z@, v.y@, m.z.z@, v.z@, 1_000_000int,
        2_000_000int);
    assert((3 * (1_000_000int * 2_000_000int)) / (SCALE as int) == 6_000_000int)
        by (nonlinear_arith);
}

/// A rotation applied to a bounded position vector stays bounded by
/// three times the bound.
proof fn lemma_position_step_bounds(m: crate::mat3::Mat3, v: Vec3, b: int)
    requires
        crate::mat3::mat3_in_range(m, 1_000_000int),
        in_range(v, b),
        0 <= b <= 1_000_000_000_000,
    ensures
        i64::MIN <= lincomb3(m.x.x@, v.x@, m.y.x@, v.y@, m.z.x@, v.z@) <= i64::MAX,
        i64::MIN <= lincomb3(m.x.y@, v.x@, m.y.y@, v.y@, m.z.y@, v.z@) <= i64::MAX,
        i64::MIN <= lincomb3(m.x.z@, v.x@, m.y.z@, v.y@, m.z.z@, v.z@) <= i64::MAX,
        -3 * b <= lincomb3(m.x.x@, v.x@, m.y.x@, v.y@, m.z.x@, v.z@) <= 3 * b,
        -3 * b <= lincomb3(m.x.y@, v.x@, m.y.y@, v.y@, m.z.y@, v.z@) <= 3 * b,
        -3 * b <= lincomb3(m.x.z@, v.x@, m.y.z@, v.y@, m.z.z@, v.z@) <= 3 * b,
{
    crate::fixed::lemma_lincomb3_in(m.x.x@, v.x@, m.y.x@, v.y@, m.z.x@, v.z@, 1_000_000int, b);
    crate::fixed::lemma_lincomb3_in(m.x.y@, v.x@, m.y.y@, v.y@, m.z.y@, v.z@, 1_000_000int, b);
    crate::fixed::lemma_lincomb3_in(m.x.z@, v.x@, m.y.z@, v.y@, m.z.z@, v.z@, 1_000_000int, b);
    assert((3 * (1_000_000int * b)) / (SCALE as int) == 3 * b) by (nonlinear_arith)
        requires
            SCALE == 1_000_000i64,
            b >= 0,
    ;
}

/// The vertical orbit angle never leaves its clamp range, and once a
/// look reaches a boundary, pushing further in the same direction
/// leaves it pinned exactly there.
pub proof fn lemma_vertical_angle_pinned(c: Camera, xrel: i32, yrel: i32)
    requires
        c.wf(),
    ensures
        ({
            let c2 = event_step(c, CameraEvent::MouseMotion { left_held: true, xrel, yrel });
            &&& 0 <= c2.vertical_angle@ <= QUARTER_TURN as int
            &&& (yrel >= 0 && c.vertical_angle@ == QUARTER_TURN as int ==> c2.vertical_angle@
                == QUARTER_TURN as int)
            &&& (yrel <= 0 && c.vertical_angle@ == 0 ==> c2.vertical_angle@ == 0)
        }),
{
    let delta = tdiv(yrel as int * (TURN_TICKS as int), c.screen_height@);
    if yrel >= 0 {
        assert(yrel as int * (TURN_TICKS as int) >= 0) by (nonlinear_arith)
            requires
                yrel >= 0,
                TURN_TICKS > 0,
        ;
    } else {
        assert(yrel as int * (TURN_TICKS as int) <= 0) by (nonlinear_arith)
            requires
                yrel <= 0,
                TURN_TICKS > 0,
        ;
        crate::fixed::lemma_div_shrinks(-(yrel as int * (TURN_TICKS as int)),
            c.screen_height@);
    }
}

/// Recomputing the transform twice on an unchanged state yields the
/// identical matrix: the transform is a pure function of the state.
pub proof fn lemma_matrix_deterministic(c: Camera, m1: crate::mat4::Mat4, m2: crate::mat4::Mat4)
    requires
        m1 == camera_matrix_spec(c),
        m2 == camera_matrix_spec(c),
    ensures
        m1 == m2,
{
}

/// Pressing a movement key that is already held changes nothing: the
/// key-down step is idempotent.
pub proof fn lemma_key_down_idempotent(c: Camera, key: Key)
    ensures
        event_step(event_step(c, CameraEvent::KeyDown { key }), CameraEvent::KeyDown { key })
            == event_step(c, CameraEvent::KeyDown { key }),
{
    match movement_button_num(key) {
        Some(b) => {
            let m = c.movement_buttons_down;
            assert((m | (1u8 << b)) | (1u8 << b) == m | (1u8 << b)) by (bit_vector);
        },
        None => {},
    }
}

/// Clamp a focus coordinate into the world bound.
fn clamp_focus(p: i64) -> (r: i64)
    ensures
        r == iclamp(p as int, -(FOCUS_LIMIT as int), FOCUS_LIMIT as int),
        -FOCUS_LIMIT <= r <= FOCUS_LIMIT,
{
    if p < -FOCUS_LIMIT {
        -FOCUS_LIMIT
    } else if p > FOCUS_LIMIT {
        FOCUS_LIMIT
    } else {
        p
    }
}

/// The raw angle moved per look event: the relative pixel motion times
/// a full turn per viewport length.
fn look_delta(rel: i32, dim: i64) -> (r: i64)
    requires
        MIN_SCREEN <= dim <= MAX_SCREEN,
    ensures
        r == tdiv(rel as int * (TURN_TICKS as int), dim as int),
        -14_000_000_000_000_000 <= r <= 14_000_000_000_000_000,
{
    proof {
        assert(TURN_TICKS == 6_283_184_000_000i64);
        crate::fixed::lemma_abs_mul_bound(rel as int, TURN_TICKS as int, 2_200_000_000int,
            TURN_TICKS as int);
        assert(2_200_000_000int * 6_283_184_000_000int == 13_823_004_800_000_000_000_000int)
            by (nonlinear_arith);
        lemma_tdiv_in(rel as int * (TURN_TICKS as int), MIN_SCREEN as int,
            13_823_004_800_000_000_000_000int);
        assert(13_823_004_800_000_000_000_000int / 1_000_000int == 13_823_004_800_000_000int);
        lemma_tdiv_divisor_grows(rel as int * (TURN_TICKS as int), MIN_SCREEN as int, dim as int);
    }
    let p: i128 = (rel as i128) * (TURN_TICKS as i128);
    let q: i128 = tdiv_i128(p, dim as i128);
    q as i64
}

/// Store one resized viewport dimension, clamped into range.
fn resize_dim_exec(p: i32) -> (r: i64)
    ensures
        r == resize_dim(p as int),
        MIN_SCREEN <= r <= MAX_SCREEN,
{
    let raw: i64 = (p as i64) * SCALE;
    if raw < MIN_SCREEN {
        MIN_SCREEN
    } else if raw > MAX_SCREEN {
        MAX_SCREEN
    } else {
        raw
    }
}

/// A larger positive divisor cannot grow the quotient's magnitude.
proof fn lemma_tdiv_divisor_grows(p: int, d1: int, d2: int)
    requires
        0 < d1 <= d2,
    ensures
        crate::fixed::abs_i(tdiv(p, d2)) <= crate::fixed::abs_i(tdiv(p, d1)),
{
    if p >= 0 {
        assert(p / d2 <= p / d1 && p / d1 >= 0 && p / d2 >= 0) by (nonlinear_arith)
            requires
                0 < d1 <= d2,
                p >= 0,
        ;
    } else {
        assert((-p) / d2 <= (-p) / d1 && (-p) / d1 >= 0 && (-p) / d2 >= 0) by (nonlinear_arith)
            requires
                0 < d1 <= d2,
                -p >= 0,
        ;
    }
}

} // verus!
