//! The player actor. It glides at sub-cell resolution with a queued
//! direction, and resolves collision against its private obstacle
//! snapshot axis by axis: the X candidate first, then — only when X did
//! not block — the Y candidate against the committed X position. Heading
//! changes are consumed at turn points: when blocked, or when both
//! sub-cell offsets are within the turn tolerance.

use vstd::prelude::*;

use crate::block::{Block, BlockV};
use crate::entity::Keycode;
use crate::graphics::{Color, Graphics, GraphicsV};
use crate::grid::{coord_ok, grid_aligned, inner_ok, is_grid_aligned, snap32, snap_coord, COORD_LIMIT};

verus! {

/// Constant actor speed, in units per frame.
pub const PACMAN_SPEED: i32 = 4;

/// The view of a vector of obstacle snapshots.
pub open spec fn blocks_view(blocks: Seq<Block>) -> Seq<BlockV> {
    blocks.map_values(|b: Block| b@)
}

/// Overlap of two 32x32 axis-aligned boxes anchored at the given
/// corners.
pub open spec fn boxes_overlap(px: int, py: int, bx: int, by: int) -> bool {
    px + 32 > bx && px < bx + 32 && py + 32 > by && py < by + 32
}

/// Whether a 32x32 box at `(px, py)` overlaps any obstacle in the
/// snapshot.
pub open spec fn hits_any(blocks: Seq<BlockV>, px: int, py: int) -> bool {
    exists|i: int| 0 <= i < blocks.len() && boxes_overlap(px, py, blocks[i].x, blocks[i].y)
}

/// The image variant for a heading; any non-unit heading keeps the
/// current descriptor.
pub open spec fn image_for(d: (int, int), current: GraphicsV) -> GraphicsV {
    if d == (1int, 0int) {
        GraphicsV::Image("./res/pacman_right.jpg"@)
    } else if d == (-1int, 0int) {
        GraphicsV::Image("./res/pacman_left.jpg"@)
    } else if d == (0int, 1int) {
        GraphicsV::Image("./res/pacman_down.jpg"@)
    } else if d == (0int, -1int) {
        GraphicsV::Image("./res/pacman_up.jpg"@)
    } else {
        current
    }
}

/// The player-controlled actor.
pub struct Pacman {
    name: String,
    x: i32,
    y: i32,
    circle: Graphics,
    color: Color,
    dir: (i8, i8),
    wish_dir: (i8, i8),
    blocks: Vec<Block>,
}

/// Mathematical model of the player actor.
pub ghost struct PacmanV {
    pub name: Seq<char>,
    pub x: int,
    pub y: int,
    pub circle: GraphicsV,
    pub color: Color,
    pub dir: (int, int),
    pub wish_dir: (int, int),
    pub blocks: Seq<BlockV>,
}

impl View for Pacman {
    type V = PacmanV;

    closed spec fn view(&self) -> PacmanV {
        PacmanV {
            name: self.name@,
            x: self.x as int,
            y: self.y as int,
            circle: self.circle@,
            color: self.color,
            dir: (self.dir.0 as int, self.dir.1 as int),
            wish_dir: (self.wish_dir.0 as int, self.wish_dir.1 as int),
            blocks: blocks_view(self.blocks@),
        }
    }
}

impl PacmanV {
    /// Machine-range bounds: the position well inside the coordinate
    /// range, every obstacle snapshot inside it.
    pub open spec fn bounded(self) -> bool {
        &&& inner_ok(self.x)
        &&& inner_ok(self.y)
        &&& forall|i: int|
            0 <= i < self.blocks.len() ==> coord_ok(#[trigger] self.blocks[i].x) && coord_ok(
                self.blocks[i].y,
            )
    }

    pub open spec fn x_candidate(self) -> int {
        self.x + self.dir.0 * (PACMAN_SPEED as int)
    }

    pub open spec fn y_candidate(self) -> int {
        self.y + self.dir.1 * (PACMAN_SPEED as int)
    }

    /// Whether the X-axis candidate overlaps an obstacle (tested with the
    /// pre-move Y position).
    pub open spec fn blocked_x(self) -> bool {
        hits_any(self.blocks, self.x_candidate(), self.y)
    }

    /// The committed X position: reverted when blocked.
    pub open spec fn x_after_slide(self) -> int {
        if self.blocked_x() {
            self.x
        } else {
            self.x_candidate()
        }
    }

    /// The Y axis is attempted only when X was not the cause of blocking.
    pub open spec fn y_tested(self) -> bool {
        !self.blocked_x()
    }

    /// Whether the Y-axis candidate, tested against the committed X
    /// position, overlaps an obstacle.
    pub open spec fn blocked_y(self) -> bool {
        self.y_tested() && hits_any(self.blocks, self.x_after_slide(), self.y_candidate())
    }

    /// The committed Y position: reverted only when the Y test ran and
    /// blocked; when X already blocked, the Y candidate is left as is
    /// (with a unit heading the Y candidate then equals the old Y).
    pub open spec fn y_after_slide(self) -> int {
        if self.blocked_y() {
            self.y
        } else {
            self.y_candidate()
        }
    }

    pub open spec fn blocked(self) -> bool {
        self.blocked_x() || self.blocked_y()
    }

    /// A turn point: blocked on either axis, or both pre-move sub-cell
    /// offsets within the turn tolerance.
    pub open spec fn at_turn_point(self) -> bool {
        self.blocked() || (grid_aligned(self.x) && grid_aligned(self.y))
    }

    /// The state after the two sliding passes, before turn consumption.
    pub open spec fn slid(self) -> PacmanV {
        PacmanV { x: self.x_after_slide(), y: self.y_after_slide(), ..self }
    }

    /// Turn consumption: with a queued direction, adopt it, switch the
    /// image, snap both axes to the grid and clear the queue; with no
    /// queued direction, do nothing.
    pub open spec fn turned(self) -> PacmanV {
        if self.wish_dir == (0int, 0int) {
            self
        } else {
            PacmanV {
                dir: self.wish_dir,
                circle: image_for(self.wish_dir, self.circle),
                x: snap32(self.x),
                y: snap32(self.y),
                wish_dir: (0int, 0int),
                ..self
            }
        }
    }

    /// One full update: slide both axes, then consume a queued turn at a
    /// turn point.
    pub open spec fn stepped(self) -> PacmanV {
        if self.at_turn_point() {
            self.slid().turned()
        } else {
            self.slid()
        }
    }

    /// The queued direction after a key press.
    pub open spec fn keyed(self, k: Keycode) -> PacmanV {
        if k == Keycode::Right || k == Keycode::D {
            PacmanV { wish_dir: (1int, 0int), ..self }
        } else if k == Keycode::Left || k == Keycode::A {
            PacmanV { wish_dir: (-1int, 0int), ..self }
        } else if k == Keycode::Down || k == Keycode::S {
            PacmanV { wish_dir: (0int, 1int), ..self }
        } else if k == Keycode::Up || k == Keycode::W {
            PacmanV { wish_dir: (0int, -1int), ..self }
        } else {
            self
        }
    }
}

/// Axis-separated collision: when the X-axis candidate overlaps an
/// obstacle, the committed X position equals the pre-update one, and the
/// Y axis is attempted exactly when X was not the cause of blocking.
/// With no queued turn, the whole update then leaves X unchanged.
pub proof fn lemma_axis_separated_collision(p: PacmanV)
    ensures
        p.blocked_x() ==> p.x_after_slide() == p.x,
        p.y_tested() == !p.blocked_x(),
        p.blocked_x() && p.wish_dir == (0int, 0int) ==> p.stepped().x == p.x,
{
}

impl Pacman {
    pub fn new(name: &str, x: i32, y: i32) -> (r: Pacman)
        requires
            inner_ok(x as int),
            inner_ok(y as int),
        ensures
            r@ == (PacmanV {
                name: name@,
                x: x as int,
                y: y as int,
                circle: GraphicsV::Image("./res/pacman_right.jpg"@),
                color: Color { r: 255, g: 255, b: 0 },
                dir: (1int, 0int),
                wish_dir: (0int, 0int),
                blocks: Seq::<BlockV>::empty(),
            }),
    {
        let r = Pacman {
            name: name.to_owned(),
            x,
            y,
            circle: Graphics::Image { path: "./res/pacman_right.jpg".to_owned() },
            color: Color { r: 255, g: 255, b: 0 },
            dir: (1, 0),
            wish_dir: (0, 0),
            blocks: Vec::new(),
        };
        proof {
            assert(blocks_view(Seq::<Block>::empty()) =~= Seq::<BlockV>::empty());
        }
        r
    }

    /// Installs the obstacle snapshot used for collision geometry.
    pub fn set_blocks(&mut self, blocks: Vec<Block>)
        ensures
            final(self)@ == (PacmanV { blocks: blocks_view(blocks@), ..old(self)@ }),
    {
        self.blocks = blocks;
    }

    pub fn get_name(&self) -> (r: &String)
        ensures
            r@ == self@.name,
    {
        &self.name
    }

    pub fn get_graphics(&self) -> (r: &Graphics)
        ensures
            r@ == self@.circle,
    {
        &self.circle
    }

    pub fn get_pos(&self) -> (r: (i32, i32))
        ensures
            r.0 == self@.x,
            r.1 == self@.y,
    {
        (self.x, self.y)
    }

    pub fn get_color(&self) -> (r: Color)
        ensures
            r == self@.color,
    {
        self.color
    }

    /// Checks the machine-range bounds, so that an unverified caller can
    /// test them before driving a frame.
    pub fn in_bounds(&self) -> (r: bool)
        ensures
            r == self@.bounded(),
    {
        if !(-(COORD_LIMIT - 1024) <= self.x && self.x <= COORD_LIMIT - 1024) {
            return false;
        }
        if !(-(COORD_LIMIT - 1024) <= self.y && self.y <= COORD_LIMIT - 1024) {
            return false;
        }
        let mut i: usize = 0;
        while i < self.blocks.len()
            invariant
                i <= self@.blocks.len(),
                self@.blocks.len() == self.blocks@.len(),
                inner_ok(self@.x),
                inner_ok(self@.y),
                forall|j: int| #![all_triggers]
                    0 <= j < i ==> coord_ok(self@.blocks[j].x) && coord_ok(self@.blocks[j].y),
            decreases self.blocks@.len() - i,
        {
            let (bx, by) = self.blocks[i].get_pos();
            proof {
                assert(self@.blocks[i as int] == self.blocks@[i as int]@);
            }
            if !(-COORD_LIMIT <= bx && bx <= COORD_LIMIT && -COORD_LIMIT <= by && by
                <= COORD_LIMIT) {
                return false;
            }
            proof {
                assert(coord_ok(self@.blocks[i as int].x));
                assert(coord_ok(self@.blocks[i as int].y));
            }
            i += 1;
        }
        true
    }

    /// The actor needs no pre-frame setup.
    pub fn start(&mut self)
        ensures
            final(self)@ == old(self)@,
    {
    }

    /// Turn consumption, shared by the blocked and the aligned case.
    fn step_move(&mut self)
        requires
            coord_ok(old(self)@.x),
            coord_ok(old(self)@.y),
        ensures
            final(self)@ == old(self)@.turned(),
    {
        if self.wish_dir.0 == 0 && self.wish_dir.1 == 0 {
            return ;
        }
        self.dir = self.wish_dir;
        match self.dir {
            (1, 0) => {
                self.circle = Graphics::Image { path: "./res/pacman_right.jpg".to_owned() };
            }
            (-1, 0) => {
                self.circle = Graphics::Image { path: "./res/pacman_left.jpg".to_owned() };
            }
            (0, 1) => {
                self.circle = Graphics::Image { path: "./res/pacman_down.jpg".to_owned() };
            }
            (0, -1) => {
                self.circle = Graphics::Image { path: "./res/pacman_up.jpg".to_owned() };
            }
            _ => {}
        }
        self.x = snap_coord(self.x);
        self.y = snap_coord(self.y);
        self.wish_dir = (0, 0);
    }

    /// One frame of movement and collision resolution.
    pub fn update(&mut self)
        requires
            old(self)@.bounded(),
        ensures
            final(self)@ == old(self)@.stepped(),
            coord_ok(final(self)@.x),
            coord_ok(final(self)@.y),
            final(self)@.blocks == old(self)@.blocks,
    {
        let aligned_both = is_grid_aligned(self.x) && is_grid_aligned(self.y);
        let mut new_x = self.x + (self.dir.0 as i32) * PACMAN_SPEED;
        let mut new_y = self.y + (self.dir.1 as i32) * PACMAN_SPEED;

        let left = new_x;
        let right = new_x + 32;
        let top = self.y;
        let bottom = self.y + 32;
        let mut hit_x = false;
        let mut i: usize = 0;
        while i < self.blocks.len()
            invariant
                self@ == old(self)@,
                self@.bounded(),
                i <= self@.blocks.len(),
                left == old(self)@.x_candidate(),
                right == left + 32,
                top == old(self)@.y,
                bottom == top + 32,
                hit_x == exists|j: int|
                    0 <= j < i && boxes_overlap(
                        left as int,
                        top as int,
                        #[trigger] self@.blocks[j].x,
                        self@.blocks[j].y,
                    ),
            decreases self@.blocks.len() - i,
        {
            let (bx, by) = self.blocks[i].get_pos();
            proof {
                assert(self@.blocks[i as int] == self.blocks@[i as int]@);
            }
            if right > bx && left < bx + 32 && bottom > by && top < by + 32 {
                hit_x = true;
                proof {
                    assert(boxes_overlap(
                        left as int,
                        top as int,
                        self@.blocks[i as int].x,
                        self@.blocks[i as int].y,
                    ));
                }
            }
            i += 1;
        }
        proof {
            assert(hit_x == old(self)@.blocked_x());
        }
        if hit_x {
            new_x = self.x;
        }
        self.x = new_x;

        let mut hit_y = false;
        if !hit_x {
            let left = self.x;
            let right = self.x + 32;
            let top = new_y;
            let bottom = new_y + 32;
            let mut i: usize = 0;
            while i < self.blocks.len()
                invariant
                    self@.blocks == old(self)@.blocks,
                    self@.bounded() || old(self)@.bounded(),
                    forall|j: int|
                        0 <= j < self@.blocks.len() ==> coord_ok(#[trigger] self@.blocks[j].x)
                            && coord_ok(self@.blocks[j].y),
                    i <= self@.blocks.len(),
                    left == self@.x,
                    right == left + 32,
                    top == new_y as int,
                    bottom == top + 32,
                    hit_y == exists|j: int|
                        0 <= j < i && boxes_overlap(
                            left as int,
                            top as int,
                            #[trigger] self@.blocks[j].x,
                            self@.blocks[j].y,
                        ),
                decreases self@.blocks.len() - i,
            {
                let (bx, by) = self.blocks[i].get_pos();
                proof {
                    assert(self@.blocks[i as int] == self.blocks@[i as int]@);
                }
                if right > bx && left < bx + 32 && bottom > by && top < by + 32 {
                    hit_y = true;
                    proof {
                        assert(boxes_overlap(
                            left as int,
                            top as int,
                            self@.blocks[i as int].x,
                            self@.blocks[i as int].y,
                        ));
                    }
                }
                i += 1;
            }
            if hit_y {
                new_y = self.y;
            }
        }
        self.y = new_y;

        proof {
            assert(self@ == old(self)@.slid());
        }
        if hit_x || hit_y {
            self.step_move();
        } else if aligned_both {
            self.step_move();
        }
    }

    /// Latches a queued direction from a key press.
    pub fn on_key_down(&mut self, keycode: Keycode)
        ensures
            final(self)@ == old(self)@.keyed(keycode),
    {
        match keycode {
            Keycode::Right | Keycode::D => {
                self.wish_dir = (1, 0);
            }
            Keycode::Left | Keycode::A => {
                self.wish_dir = (-1, 0);
            }
            Keycode::Down | Keycode::S => {
                self.wish_dir = (0, 1);
            }
            Keycode::Up | Keycode::W => {
                self.wish_dir = (0, -1);
            }
            _ => {}
        }
    }
}

} // verus!
