//! The player and the rival: where they stand, and how they move.

use crate::aabb::{Aabb, Vec3};
use crate::game::{frame_delta, min_int, scroll_delta, GameEvent, MAX_FRAME_MICROS};
use vstd::prelude::*;

verus! {

/// Where the player starts, and the bounds of its vertical travel.
pub const BIRB_START_Y: i64 = 3_000;

pub const BIRB_MIN_Y: i64 = 900;

pub const BIRB_MAX_Y: i64 = 6_300;

/// How far one up or down command moves the player's target.
pub const TARGET_STEP: i64 = 250;

/// The player's speed toward its target, per second.
pub const BIRB_SPEED: i64 = 2_000;

/// The player's tilt, in thousandths of a radian: its limit, and how fast
/// it turns while moving and while gliding back to level, per second.
pub const TILT_LIMIT: i64 = 500;

pub const TILT_SPEED: i64 = 2_000;

pub const TILT_GLIDE_SPEED: i64 = 1_000;

/// The player's hitbox: half its extent along each axis, a little more
/// forgiving than the model.
pub const BIRB_HALF_X: i64 = 200;

pub const BIRB_HALF_Y: i64 = 300;

pub const BIRB_HALF_Z: i64 = 250;

/// The rival starts here and flies forward until `RIVAL_STOP_X`.
pub const RIVAL_START_X: i64 = -10_000;

pub const RIVAL_STOP_X: i64 = 3_000;

pub const RIVAL_BASE_Y: i64 = 4_000;

pub const RIVAL_Z: i64 = 2_500;

pub const RIVAL_SPEED: i64 = 5_000;

/// The largest magnitude of a coordinate of the player or the rival.
pub const ACTOR_LIMIT: i64 = 1_000_000_000;

/// The player's hitbox in its own frame.
pub open spec fn birb_hitbox() -> Aabb {
    Aabb {
        min: Vec3 { x: (-BIRB_HALF_X) as i64, y: (-BIRB_HALF_Y) as i64, z: (-BIRB_HALF_Z) as i64 },
        max: Vec3 { x: BIRB_HALF_X, y: BIRB_HALF_Y, z: BIRB_HALF_Z },
    }
}

pub open spec fn actor_bounded(p: Vec3) -> bool {
    &&& -ACTOR_LIMIT <= p.x <= ACTOR_LIMIT
    &&& -ACTOR_LIMIT <= p.y <= ACTOR_LIMIT
    &&& -ACTOR_LIMIT <= p.z <= ACTOR_LIMIT
}

/// The player: where it is, where it is heading, its tilt in thousandths
/// of a radian, and its hitbox in its own frame.
#[derive(Clone, Copy, Debug, PartialEq, Eq, Structural)]
pub struct Birb {
    pub translation: Vec3,
    pub target: Vec3,
    pub tilt: i64,
    pub hitbox: Aabb,
}

impl Birb {
    pub open spec fn wf(self) -> bool {
        &&& actor_bounded(self.translation)
        &&& actor_bounded(self.target)
        &&& -TILT_LIMIT <= self.tilt <= TILT_LIMIT
        &&& self.hitbox == birb_hitbox()
        &&& self.target.x == self.translation.x
        &&& self.target.z == self.translation.z
    }

    /// The hitbox in world space.
    pub open spec fn world_box(self) -> Aabb {
        self.hitbox.spec_translated(self.translation)
    }
}

/// The golden rival that flies alongside without colliding.
#[derive(Clone, Copy, Debug, PartialEq, Eq, Structural)]
pub struct Rival {
    pub translation: Vec3,
}

/// The player's target height after one up (`up`) or down command, and the
/// event that the command gives: a flap, or a bump when the step would
/// leave the travel bounds, in which case the target stops at the bound.
pub open spec fn step_target(y: int, up: bool) -> (int, GameEvent) {
    if up {
        if y + TARGET_STEP > BIRB_MAX_Y {
            (BIRB_MAX_Y as int, GameEvent::BumpAtBoundary)
        } else {
            (y + TARGET_STEP, GameEvent::Flap)
        }
    } else {
        if y - TARGET_STEP < BIRB_MIN_Y {
            (BIRB_MIN_Y as int, GameEvent::BumpAtBoundary)
        } else {
            (y - TARGET_STEP, GameEvent::Flap)
        }
    }
}

/// `v` held within `[-limit, limit]`.
pub open spec fn clamp_int(v: int, limit: int) -> int {
    if v > limit {
        limit
    } else if v < -limit {
        -limit
    } else {
        v
    }
}

/// `v` moved `by` toward zero, never past it.
pub open spec fn toward_zero(v: int, by: int) -> int {
    if v >= 0 {
        if v - by >= 0 { v - by } else { 0 }
    } else {
        min_int(v + by, 0)
    }
}

/// The player after a frame of `dt_micros`. Its height moves toward the
/// target by the frame's step or the remaining distance, whichever is less.
/// At its target it glides back to level at `TILT_GLIDE_SPEED`; otherwise
/// it turns toward the direction of travel at `TILT_SPEED`, within the
/// tilt limit.
pub open spec fn birb_after_move(b: Birb, dt_micros: int) -> Birb {
    let up = b.target.y >= b.translation.y;
    let dist = if up {
        b.target.y - b.translation.y
    } else {
        b.translation.y - b.target.y
    };
    let moved = min_int(dist, scroll_delta(dt_micros, BIRB_SPEED as int));
    let y = if up {
        b.translation.y + moved
    } else {
        b.translation.y - moved
    };
    let tilt = if dist == 0 {
        toward_zero(b.tilt as int, scroll_delta(dt_micros, TILT_GLIDE_SPEED as int))
    } else {
        let turn = scroll_delta(dt_micros, TILT_SPEED as int);
        clamp_int(if up { b.tilt + turn } else { b.tilt - turn }, TILT_LIMIT as int)
    };
    Birb { tilt: tilt as i64, translation: Vec3 { y: y as i64, ..b.translation }, ..b }
}

/// Moves a player one frame toward its target.
pub fn move_birb(b: Birb, dt_micros: u64) -> (r: Birb)
    requires
        b.wf(),
        dt_micros <= MAX_FRAME_MICROS,
    ensures
        r == birb_after_move(b, dt_micros as int),
        r.wf(),
{
    let dist = if b.target.y >= b.translation.y {
        b.target.y - b.translation.y
    } else {
        b.translation.y - b.target.y
    };
    if dist == 0 {
        let glide = frame_delta(dt_micros, TILT_GLIDE_SPEED);
        let tilt = if b.tilt < 0 {
            if b.tilt + glide <= 0 {
                b.tilt + glide
            } else {
                0
            }
        } else if b.tilt > 0 {
            if b.tilt - glide >= 0 {
                b.tilt - glide
            } else {
                0
            }
        } else {
            0
        };
        Birb { tilt, ..b }
    } else {
        let turn = frame_delta(dt_micros, TILT_SPEED);
        let raw = if b.target.y > b.translation.y {
            b.tilt + turn
        } else {
            b.tilt - turn
        };
        let tilt = if raw > TILT_LIMIT {
            TILT_LIMIT
        } else if raw < -TILT_LIMIT {
            -TILT_LIMIT
        } else {
            raw
        };
        let step = frame_delta(dt_micros, BIRB_SPEED);
        let y = if dist <= step {
            b.target.y
        } else if b.target.y > b.translation.y {
            b.translation.y + step
        } else {
            b.translation.y - step
        };
        Birb { tilt, translation: Vec3 { y, ..b.translation }, ..b }
    }
}

/// The largest bob offset that the display may hand in.
pub const BOB_LIMIT: i64 = 1_000_000;

/// The player as it is placed at the start of a run.
pub open spec fn fresh_birb() -> Birb {
    let pos = Vec3 { x: 0, y: BIRB_START_Y, z: 0 };
    Birb { translation: pos, target: pos, tilt: 0, hitbox: birb_hitbox() }
}

/// The rival as it is placed when play begins.
pub open spec fn fresh_rival() -> Rival {
    Rival { translation: Vec3 { x: RIVAL_START_X, y: RIVAL_BASE_Y, z: RIVAL_Z } }
}

} // verus!
