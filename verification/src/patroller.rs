//! Patrolling pursuers. A patroller ping-pongs between two fixed
//! waypoints at constant speed, ignoring obstacles. Its straight-line
//! motion uses exact integer arithmetic: the snap test compares the
//! squared remaining distance with the squared speed, and each axis step
//! is the rounded share of the speed along that axis.

use vstd::prelude::*;

use crate::graphics::{Color, Graphics, GraphicsV};
use crate::grid::{coord_ok, COORD_LIMIT};

verus! {

/// Constant patroller speed, in units per frame.
pub const PATROLLER_SPEED: i32 = 5;

/// Per-axis waypoint spans are kept within this bound so that squared
/// distances stay inside the machine integer ranges.
pub const SPAN_LIMIT: i32 = 32_000;

/// Whether `v` lies between `a` and `b`, in either order.
pub open spec fn between(v: int, a: int, b: int) -> bool {
    (a <= v <= b) || (b <= v <= a)
}

/// The magnitude of the rounded axis step for a nonnegative axis
/// distance `d` and squared remaining distance `n`: the nearest integer
/// to `5 * d / sqrt(n)`, halves away from zero. The comparisons below are
/// the squared forms of `5 * d / sqrt(n) < k + 1/2`.
pub open spec fn step_mag(d: int, n: int) -> int {
    if 100 * d * d < n {
        0
    } else if 100 * d * d < 9 * n {
        1
    } else if 100 * d * d < 25 * n {
        2
    } else if 100 * d * d < 49 * n {
        3
    } else if 100 * d * d < 81 * n {
        4
    } else {
        5
    }
}

/// The signed rounded axis step: `round(5 * d / sqrt(n))`.
pub open spec fn axis_step(d: int, n: int) -> int {
    if d >= 0 {
        step_mag(d, n)
    } else {
        -step_mag(-d, n)
    }
}

/// An entity that ping-pongs between two fixed waypoints.
pub struct Patroller {
    name: String,
    x: i32,
    y: i32,
    start_x: i32,
    start_y: i32,
    goto_x: i32,
    goto_y: i32,
    graphics: Graphics,
    color: Color,
    forward: bool,
}

/// Mathematical model of a patroller.
pub ghost struct PatrollerV {
    pub name: Seq<char>,
    pub x: int,
    pub y: int,
    pub start_x: int,
    pub start_y: int,
    pub goto_x: int,
    pub goto_y: int,
    pub graphics: GraphicsV,
    pub color: Color,
    pub forward: bool,
}

impl View for Patroller {
    type V = PatrollerV;

    closed spec fn view(&self) -> PatrollerV {
        PatrollerV {
            name: self.name@,
            x: self.x as int,
            y: self.y as int,
            start_x: self.start_x as int,
            start_y: self.start_y as int,
            goto_x: self.goto_x as int,
            goto_y: self.goto_y as int,
            graphics: self.graphics@,
            color: self.color,
            forward: self.forward,
        }
    }
}

impl PatrollerV {
    /// The waypoint currently headed to.
    pub open spec fn target(self) -> (int, int) {
        if self.forward {
            (self.goto_x, self.goto_y)
        } else {
            (self.start_x, self.start_y)
        }
    }

    /// One update: snap to the target and flip the heading when the
    /// remaining distance is below the speed, else advance by the rounded
    /// per-axis steps.
    pub open spec fn stepped(self) -> PatrollerV {
        let (tx, ty) = self.target();
        let dx = tx - self.x;
        let dy = ty - self.y;
        let n = dx * dx + dy * dy;
        if n < 25 {
            PatrollerV { x: tx, y: ty, forward: !self.forward, ..self }
        } else {
            PatrollerV { x: self.x + axis_step(dx, n), y: self.y + axis_step(dy, n), ..self }
        }
    }

    /// Well-formedness: waypoints in range, per-axis spans bounded, and
    /// the position inside the waypoints' bounding box.
    pub open spec fn wf(self) -> bool {
        &&& coord_ok(self.start_x)
        &&& coord_ok(self.start_y)
        &&& coord_ok(self.goto_x)
        &&& coord_ok(self.goto_y)
        &&& -(SPAN_LIMIT as int) <= self.goto_x - self.start_x <= SPAN_LIMIT as int
        &&& -(SPAN_LIMIT as int) <= self.goto_y - self.start_y <= SPAN_LIMIT as int
        &&& between(self.x, self.start_x, self.goto_x)
        &&& between(self.y, self.start_y, self.goto_y)
    }
}

/// A step's magnitude never exceeds the remaining axis distance, so a
/// patroller never overshoots its target on either axis.
proof fn lemma_step_mag_le(d: int, n: int)
    requires
        0 <= d,
        25 <= n,
    ensures
        0 <= step_mag(d, n) <= d,
{
    if 100 * d * d >= 81 * n {
        assert(d >= 5) by (nonlinear_arith)
            requires
                100 * d * d >= 81 * n,
                n >= 25,
                d >= 0,
        ;
    } else if 100 * d * d >= 49 * n {
        assert(d >= 4) by (nonlinear_arith)
            requires
                100 * d * d >= 49 * n,
                n >= 25,
                d >= 0,
        ;
    } else if 100 * d * d >= 25 * n {
        assert(d >= 3) by (nonlinear_arith)
            requires
                100 * d * d >= 25 * n,
                n >= 25,
                d >= 0,
        ;
    } else if 100 * d * d >= 9 * n {
        assert(d >= 2) by (nonlinear_arith)
            requires
                100 * d * d >= 9 * n,
                n >= 25,
                d >= 0,
        ;
    } else if 100 * d * d >= n {
        assert(d >= 1) by (nonlinear_arith)
            requires
                100 * d * d >= n,
                n >= 25,
                d >= 0,
        ;
    }
}

/// Patroller snapping: starting closer than its speed to the current
/// target, one update moves the patroller exactly to the target and
/// flips its heading flag, so the following update heads for the
/// opposite waypoint. (At a remaining distance of exactly the speed the
/// update still reaches the target when the path is axis-aligned, but
/// the flag flips only on the update after.)
pub proof fn lemma_snap_and_flip(g: PatrollerV)
    requires
        ({
            let (tx, ty) = g.target();
            (tx - g.x) * (tx - g.x) + (ty - g.y) * (ty - g.y) < 25
        }),
    ensures
        (g.stepped().x, g.stepped().y) == g.target(),
        g.stepped().forward == !g.forward,
        g.stepped().target() == (if g.forward {
            (g.start_x, g.start_y)
        } else {
            (g.goto_x, g.goto_y)
        }),
{
}

impl Patroller {
    pub fn create(name: &str, x: i32, y: i32, goto_x: i32, goto_y: i32, graphics: Graphics) -> (r:
        Patroller)
        requires
            coord_ok(x as int),
            coord_ok(y as int),
            coord_ok(goto_x as int),
            coord_ok(goto_y as int),
            -(SPAN_LIMIT as int) <= goto_x - x <= SPAN_LIMIT as int,
            -(SPAN_LIMIT as int) <= goto_y - y <= SPAN_LIMIT as int,
        ensures
            r@ == (PatrollerV {
                name: name@,
                x: x as int,
                y: y as int,
                start_x: x as int,
                start_y: y as int,
                goto_x: goto_x as int,
                goto_y: goto_y as int,
                graphics: graphics@,
                color: Color { r: 255, g: 0, b: 0 },
                forward: true,
            }),
            r@.wf(),
    {
        Patroller {
            name: name.to_owned(),
            x,
            y,
            start_x: x,
            start_y: y,
            goto_x,
            goto_y,
            graphics,
            color: Color { r: 255, g: 0, b: 0 },
            forward: true,
        }
    }

    pub fn get_name(&self) -> (r: &String)
        ensures
            r@ == self@.name,
    {
        &self.name
    }

    pub fn get_pos(&self) -> (r: (i32, i32))
        ensures
            r.0 == self@.x,
            r.1 == self@.y,
    {
        (self.x, self.y)
    }

    pub fn get_graphics(&self) -> (r: &Graphics)
        ensures
            r@ == self@.graphics,
    {
        &self.graphics
    }

    pub fn get_color(&self) -> (r: Color)
        ensures
            r == self@.color,
    {
        self.color
    }

    /// Checks well-formedness, so that an unverified caller can test it
    /// before driving a frame.
    pub fn is_well_formed(&self) -> (r: bool)
        ensures
            r == self@.wf(),
    {
        -COORD_LIMIT <= self.start_x && self.start_x <= COORD_LIMIT && -COORD_LIMIT <= self.start_y
            && self.start_y <= COORD_LIMIT && -COORD_LIMIT <= self.goto_x && self.goto_x
            <= COORD_LIMIT && -COORD_LIMIT <= self.goto_y && self.goto_y <= COORD_LIMIT
            && -SPAN_LIMIT <= self.goto_x - self.start_x && self.goto_x - self.start_x <= SPAN_LIMIT
            && -SPAN_LIMIT <= self.goto_y - self.start_y && self.goto_y - self.start_y <= SPAN_LIMIT
            && ((self.start_x <= self.x && self.x <= self.goto_x) || (self.goto_x <= self.x
            && self.x <= self.start_x)) && ((self.start_y <= self.y && self.y <= self.goto_y) || (
        self.goto_y <= self.y && self.y <= self.start_y))
    }

    /// Patrollers need no pre-frame setup.
    pub fn start(&mut self)
        ensures
            final(self)@ == old(self)@,
    {
    }

    fn axis_step_exec(d: i32, n: i64) -> (r: i32)
        requires
            -(SPAN_LIMIT as int) <= d <= SPAN_LIMIT as int,
            25 <= n <= 2_100_000_000,
        ensures
            r == axis_step(d as int, n as int),
    {
        let a: i64 = if d >= 0 {
            d as i64
        } else {
            -(d as i64)
        };
        proof {
            assert(0 <= 100 * a * a <= 102_400_000_000int) by (nonlinear_arith)
                requires
                    0 <= a <= SPAN_LIMIT as int,
            ;
        }
        let m: i64 = 100 * a * a;
        let k: i32 = if m < n {
            0
        } else if m < 9 * n {
            1
        } else if m < 25 * n {
            2
        } else if m < 49 * n {
            3
        } else if m < 81 * n {
            4
        } else {
            5
        };
        if d >= 0 {
            k
        } else {
            -k
        }
    }

    /// One frame of patrol motion.
    pub fn update(&mut self)
        requires
            old(self)@.wf(),
        ensures
            final(self)@ == old(self)@.stepped(),
            final(self)@.wf(),
    {
        let (tx, ty) = if self.forward {
            (self.goto_x, self.goto_y)
        } else {
            (self.start_x, self.start_y)
        };
        let dx = tx - self.x;
        let dy = ty - self.y;
        proof {
            assert(0 <= (dx as int) * (dx as int) <= 1_024_000_000int) by (nonlinear_arith)
                requires
                    -(SPAN_LIMIT as int) <= dx as int <= SPAN_LIMIT as int,
            ;
            assert(0 <= (dy as int) * (dy as int) <= 1_024_000_000int) by (nonlinear_arith)
                requires
                    -(SPAN_LIMIT as int) <= dy as int <= SPAN_LIMIT as int,
            ;
        }
        let n: i64 = (dx as i64) * (dx as i64) + (dy as i64) * (dy as i64);
        if n < 25 {
            self.x = tx;
            self.y = ty;
            self.forward = !self.forward;
            return ;
        }
        let sx = Self::axis_step_exec(dx, n);
        let sy = Self::axis_step_exec(dy, n);
        proof {
            if dx >= 0 {
                lemma_step_mag_le(dx as int, n as int);
            } else {
                lemma_step_mag_le(-(dx as int), n as int);
            }
            if dy >= 0 {
                lemma_step_mag_le(dy as int, n as int);
            } else {
                lemma_step_mag_le(-(dy as int), n as int);
            }
        }
        self.x = self.x + sx;
        self.y = self.y + sy;
    }

    /// Patrollers ignore key events.
    pub fn on_key_down(&mut self, _keycode: crate::entity::Keycode)
        ensures
            final(self)@ == old(self)@,
    {
    }
}

} // verus!
