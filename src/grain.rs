//! One grain of sand: where it is, how fast it falls and how it spins.
//!
//! Lengths are in micro-pixels, times in microseconds, speeds in
//! micro-pixels per second and angles in micro-radians.

use vstd::prelude::*;
use crate::catalog::Rgb;

verus! {

/// Micro-pixels in one pixel.
pub const UNITS_PER_PIXEL: i64 = 1000000;

/// Microseconds in one second.
pub const MICROS_PER_SECOND: i64 = 1000000;

/// Width of the play field, 800 pixels.
pub const FIELD_WIDTH: i64 = 800000000;

/// Height of the floor line, 600 pixels down from the top.
pub const FLOOR: i64 = 600000000;

/// Side of a grain, 10 pixels.
pub const GRAIN_SIZE: i64 = 10000000;

/// Gravity, 300 pixels per second squared: the fall speed, in micro-pixels
/// per second, gained in one microsecond.
pub const GRAVITY: i64 = 300;

/// Spin of a new grain, 3 radians per second, in micro-radians per second.
pub const SPIN_SPEED: i64 = 3000000;

/// A full turn, in micro-radians; angles are kept below it.
pub const FULL_TURN: i64 = 6283185;

/// A grain on the floor that falls no faster than this (0.1 pixels per
/// second) is at rest.
pub const SETTLE_SPEED: i64 = 100000;

/// Fall speed at which gravity stops adding, a million pixels per second.
pub const MAX_FALL_SPEED: i64 = 1000000000000;

/// Longest time step of the physics, one second.
pub const MAX_STEP: u64 = 1000000;

/// Farthest a grain can be placed from the origin, on either axis.
pub const POSITION_LIMIT: i64 = 1000000000000000;

/// Farthest from the origin a grain can be asked to appear, on either axis.
pub const SPAWN_LIMIT: i64 = 500000000000000;

/// Largest side of a grain, and fastest spin.
pub const SIZE_LIMIT: i64 = 1000000000000;

/// An axis-aligned rectangle: its top-left corner, width and height.
#[derive(Clone, Copy, Debug, PartialEq, Eq, Structural)]
pub struct Bounds {
    pub x: i64,
    pub y: i64,
    pub w: i64,
    pub h: i64,
}

impl Bounds {
    pub fn new(x: i64, y: i64, w: i64, h: i64) -> (b: Bounds)
        ensures
            b == (Bounds { x, y, w, h }),
    {
        Bounds { x, y, w, h }
    }

    pub open spec fn spec_bottom(self) -> int {
        self.y + self.h
    }

    /// The line of the lower edge.
    pub fn bottom(&self) -> (b: i64)
        requires
            i64::MIN <= self.y + self.h <= i64::MAX,
        ensures
            b == self.spec_bottom(),
    {
        self.y + self.h
    }
}

/// A falling or resting grain of sand.
#[derive(Clone, Copy, Debug, PartialEq, Eq, Structural)]
pub struct Grain {
    pub rect: Bounds,
    pub color: Rgb,
    /// Angle, in micro-radians, below `FULL_TURN`.
    pub rotation: i64,
    /// Spin, in micro-radians per second.
    pub r_v: i64,
    /// Fall speed, in micro-pixels per second.
    pub y_v: i64,
}

impl Grain {
    pub open spec fn wf(self) -> bool {
        &&& -POSITION_LIMIT <= self.rect.x <= POSITION_LIMIT
        &&& -POSITION_LIMIT <= self.rect.y <= POSITION_LIMIT
        &&& 0 < self.rect.w <= SIZE_LIMIT
        &&& 0 < self.rect.h <= SIZE_LIMIT
        &&& 0 <= self.rotation < FULL_TURN
        &&& 0 <= self.r_v <= SIZE_LIMIT
        &&& 0 <= self.y_v <= MAX_FALL_SPEED
    }

    /// On or below the floor and no longer falling.
    pub open spec fn settled(self) -> bool {
        self.rect.spec_bottom() >= FLOOR && self.y_v <= SETTLE_SPEED
    }

    /// Fall speed after `dt` more microseconds of gravity.
    pub open spec fn speed_after(self, dt: nat) -> int {
        if self.y_v + GRAVITY * dt > MAX_FALL_SPEED {
            MAX_FALL_SPEED as int
        } else {
            self.y_v + GRAVITY * dt
        }
    }

    /// Distance fallen in a step of `dt` microseconds, at the new speed.
    pub open spec fn drop_in(self, dt: nat) -> int {
        self.speed_after(dt) * dt / (MICROS_PER_SECOND as int)
    }

    /// The grain after a step of `dt` microseconds: a grain at rest stays as
    /// it is; another gains speed, falls and turns, and where its lower edge
    /// reaches the floor it is set on the floor with no speed left.
    pub open spec fn stepped(self, dt: nat) -> Grain {
        if self.settled() {
            self
        } else {
            let y = self.rect.y + self.drop_in(dt);
            let turned = (self.rotation + self.r_v * dt / (MICROS_PER_SECOND as int)) % (
            FULL_TURN as int);
            if y + self.rect.h >= FLOOR {
                Grain {
                    rect: Bounds { y: (FLOOR - self.rect.h) as i64, ..self.rect },
                    rotation: turned as i64,
                    y_v: 0,
                    ..self
                }
            } else {
                Grain {
                    rect: Bounds { y: y as i64, ..self.rect },
                    rotation: turned as i64,
                    y_v: self.speed_after(dt) as i64,
                    ..self
                }
            }
        }
    }

    /// A grain of side `size` centred on `(x, y)`, at rest in the air, not
    /// turned, with the usual spin.
    pub fn new(x: i64, y: i64, size: i64, rgb: Rgb) -> (g: Grain)
        requires
            -SPAWN_LIMIT <= x <= SPAWN_LIMIT,
            -SPAWN_LIMIT <= y <= SPAWN_LIMIT,
            0 < size <= SIZE_LIMIT,
        ensures
            g.rect == (Bounds { x: (x - size / 2) as i64, y: (y - size / 2) as i64, w: size, h: size }),
            g.color == rgb,
            g.rotation == 0,
            g.r_v == SPIN_SPEED,
            g.y_v == 0,
            g.wf(),
    {
        let grain_rect = Bounds::new(x - size / 2, y - size / 2, size, size);
        Grain { rect: grain_rect, color: rgb, rotation: 0, r_v: SPIN_SPEED, y_v: 0 }
    }

    /// Whether the grain is at rest on the floor.
    pub fn is_done(&self) -> (d: bool)
        requires
            self.wf(),
        ensures
            d == self.settled(),
    {
        self.rect.bottom() >= FLOOR && self.y_v <= SETTLE_SPEED
    }

    /// Advances the grain by `dt` microseconds.
    pub fn update(&mut self, dt: u64)
        requires
            old(self).wf(),
            dt <= MAX_STEP,
        ensures
            *final(self) == old(self).stepped(dt as nat),
            final(self).wf(),
    {
        if self.is_done() {
            return;
        }
        let gained: i64 = GRAVITY * dt as i64;
        self.y_v = if self.y_v + gained > MAX_FALL_SPEED {
            MAX_FALL_SPEED
        } else {
            self.y_v + gained
        };
        assert(self.y_v * (dt as int) <= MAX_FALL_SPEED * MAX_STEP) by (nonlinear_arith)
            requires
                0 <= self.y_v <= MAX_FALL_SPEED,
                dt <= MAX_STEP,
        ;
        assert(0 <= self.y_v * (dt as int)) by (nonlinear_arith)
            requires
                0 <= self.y_v,
        ;
        let fallen: i64 = self.y_v * dt as i64 / MICROS_PER_SECOND;
        assert(self.r_v * (dt as int) <= SIZE_LIMIT * MAX_STEP) by (nonlinear_arith)
            requires
                0 <= self.r_v <= SIZE_LIMIT,
                dt <= MAX_STEP,
        ;
        assert(0 <= self.r_v * (dt as int)) by (nonlinear_arith)
            requires
                0 <= self.r_v,
        ;
        let spun: i64 = self.r_v * dt as i64 / MICROS_PER_SECOND;
        self.rotation = (self.rotation + spun) % FULL_TURN;
        self.rect.y = self.rect.y + fallen;
        if self.rect.bottom() >= FLOOR {
            self.rect.y = FLOOR - self.rect.h;
            self.y_v = 0;
        }
    }
}

/// A grain falls until the floor stops it. In a step a falling grain either
/// stays above the floor and keeps falling, or, once the distance fallen
/// brings its lower edge to the floor, rests with its top at `FLOOR` less its
/// height and no speed. A grain at rest is left as it is by every later step.
pub proof fn lemma_grain_settles(g: Grain, dt: nat, later: nat)
    requires
        g.wf(),
        !g.settled(),
    ensures
        g.rect.y + g.drop_in(dt) + g.rect.h < FLOOR ==> !g.stepped(dt).settled()
            && g.stepped(dt).rect.y == g.rect.y + g.drop_in(dt),
        g.rect.y + g.drop_in(dt) + g.rect.h >= FLOOR ==> g.stepped(dt).settled()
            && g.stepped(dt).rect.y == FLOOR - g.rect.h && g.stepped(dt).y_v == 0,
        g.stepped(dt).settled() ==> g.stepped(dt).stepped(later) == g.stepped(dt),
{
}

} // verus!
