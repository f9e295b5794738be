//! Static maze obstacles. A block owns a fixed 32x32 footprint anchored
//! at construction and a style tag out of eleven variants; the style only
//! selects which wall segments are drawn — collision always uses the full
//! cell.

use vstd::prelude::*;

use crate::graphics::{Color, Graphics, GraphicsV, Line};
use crate::grid::coord_ok;

verus! {

/// Which of the cell's edges are drawn as solid walls: the full cell,
/// one open side, two opposite or adjacent open sides, or a corner.
#[derive(Clone, Copy, PartialEq, Eq, Structural)]
pub enum BlockStyle {
    Full,
    Top,
    TopBottom,
    Bottom,
    Left,
    LeftRight,
    Right,
    BottomRight,
    BottomLeft,
    TopRight,
    TopLeft,
}

/// Whether a map character selects one of the eleven block styles.
pub open spec fn is_style_code(c: char) -> bool {
    c == '1' || c == '2' || c == '3' || c == '4' || c == '5' || c == '6' || c == '7' || c == '8'
        || c == '9' || c == 'a' || c == 'b'
}

/// The fixed code-to-style table of the map description format.
pub open spec fn style_of_code(c: char) -> BlockStyle {
    if c == '1' {
        BlockStyle::Full
    } else if c == '2' {
        BlockStyle::Top
    } else if c == '3' {
        BlockStyle::Bottom
    } else if c == '4' {
        BlockStyle::Left
    } else if c == '5' {
        BlockStyle::Right
    } else if c == '6' {
        BlockStyle::TopBottom
    } else if c == '7' {
        BlockStyle::LeftRight
    } else if c == '8' {
        BlockStyle::BottomRight
    } else if c == '9' {
        BlockStyle::BottomLeft
    } else if c == 'a' {
        BlockStyle::TopRight
    } else {
        BlockStyle::TopLeft
    }
}

impl BlockStyle {
    /// Decodes a map character into its style.
    pub fn convert(c: char) -> (r: BlockStyle)
        requires
            is_style_code(c),
        ensures
            r == style_of_code(c),
    {
        match c {
            '1' => BlockStyle::Full,
            '2' => BlockStyle::Top,
            '3' => BlockStyle::Bottom,
            '4' => BlockStyle::Left,
            '5' => BlockStyle::Right,
            '6' => BlockStyle::TopBottom,
            '7' => BlockStyle::LeftRight,
            '8' => BlockStyle::BottomRight,
            '9' => BlockStyle::BottomLeft,
            'a' => BlockStyle::TopRight,
            _ => BlockStyle::TopLeft,
        }
    }
}

/// The exact segment set each style generates, in local cell coordinates.
pub open spec fn style_segments(style: BlockStyle) -> Seq<Line> {
    match style {
        BlockStyle::Full => seq![
            Line { start: (7, 7), end: (25, 7) },
            Line { start: (7, 7), end: (7, 25) },
            Line { start: (25, 7), end: (25, 25) },
            Line { start: (7, 25), end: (25, 25) },
        ],
        BlockStyle::Top => seq![
            Line { start: (7, 0), end: (7, 25) },
            Line { start: (25, 0), end: (25, 25) },
            Line { start: (7, 25), end: (25, 25) },
        ],
        BlockStyle::Bottom => seq![
            Line { start: (7, 7), end: (25, 7) },
            Line { start: (7, 7), end: (7, 32) },
            Line { start: (25, 7), end: (25, 32) },
        ],
        BlockStyle::Left => seq![
            Line { start: (0, 7), end: (25, 7) },
            Line { start: (25, 7), end: (25, 25) },
            Line { start: (0, 25), end: (25, 25) },
        ],
        BlockStyle::Right => seq![
            Line { start: (7, 7), end: (32, 7) },
            Line { start: (7, 7), end: (7, 25) },
            Line { start: (7, 25), end: (32, 25) },
        ],
        BlockStyle::TopBottom => seq![
            Line { start: (7, 0), end: (7, 32) },
            Line { start: (25, 0), end: (25, 32) },
        ],
        BlockStyle::LeftRight => seq![
            Line { start: (0, 7), end: (32, 7) },
            Line { start: (0, 25), end: (32, 25) },
        ],
        BlockStyle::BottomRight => seq![
            Line { start: (7, 7), end: (32, 7) },
            Line { start: (7, 7), end: (7, 32) },
            Line { start: (25, 25), end: (25, 32) },
            Line { start: (25, 25), end: (32, 25) },
        ],
        BlockStyle::BottomLeft => seq![
            Line { start: (0, 7), end: (25, 7) },
            Line { start: (0, 25), end: (7, 25) },
            Line { start: (7, 25), end: (7, 32) },
            Line { start: (25, 7), end: (25, 32) },
        ],
        BlockStyle::TopRight => seq![
            Line { start: (7, 0), end: (7, 25) },
            Line { start: (7, 25), end: (32, 25) },
            Line { start: (25, 0), end: (25, 7) },
            Line { start: (25, 7), end: (32, 7) },
        ],
        BlockStyle::TopLeft => seq![
            Line { start: (0, 7), end: (7, 7) },
            Line { start: (7, 0), end: (7, 7) },
            Line { start: (25, 0), end: (25, 25) },
            Line { start: (0, 25), end: (25, 25) },
        ],
    }
}

/// A static obstacle: full-cell collision footprint, style-dependent
/// wall drawing.
pub struct Block {
    name: String,
    x: i32,
    y: i32,
    rect: Graphics,
    color: Color,
    style: BlockStyle,
}

/// Mathematical model of a block.
pub ghost struct BlockV {
    pub name: Seq<char>,
    pub x: int,
    pub y: int,
    pub rect: GraphicsV,
    pub color: Color,
    pub style: BlockStyle,
}

impl View for Block {
    type V = BlockV;

    closed spec fn view(&self) -> BlockV {
        BlockV {
            name: self.name@,
            x: self.x as int,
            y: self.y as int,
            rect: self.rect@,
            color: self.color,
            style: self.style,
        }
    }
}

impl BlockV {
    /// Shape generation: the lifecycle hook appends the style's segment
    /// set to the line descriptor; an image descriptor is left alone.
    pub open spec fn started(self) -> BlockV {
        match self.rect {
            GraphicsV::Lines(lines) => BlockV {
                rect: GraphicsV::Lines(lines + style_segments(self.style)),
                ..self
            },
            GraphicsV::Image(_) => self,
        }
    }
}

impl Block {
    pub fn new(name: &str, x: i32, y: i32, style: BlockStyle) -> (r: Block)
        requires
            coord_ok(x as int),
            coord_ok(y as int),
        ensures
            r@ == (BlockV {
                name: name@,
                x: x as int,
                y: y as int,
                rect: GraphicsV::Lines(Seq::<Line>::empty()),
                color: Color { r: 0, g: 255, b: 255 },
                style,
            }),
    {
        Block {
            name: name.to_owned(),
            x,
            y,
            rect: Graphics::Line(Vec::new()),
            color: Color { r: 0, g: 255, b: 255 },
            style,
        }
    }

    fn generate_style(&mut self)
        ensures
            final(self)@ == old(self)@.started(),
    {
        let mut tmp = Graphics::Line(Vec::new());
        core::mem::swap(&mut tmp, &mut self.rect);
        match tmp {
            Graphics::Line(mut lines) => {
                let ghost lines0 = lines@;
                match self.style {
                    BlockStyle::Full => {
                        lines.push(Line::create((7, 7), (25, 7)));
                        lines.push(Line::create((7, 7), (7, 25)));
                        lines.push(Line::create((25, 7), (25, 25)));
                        lines.push(Line::create((7, 25), (25, 25)));
                        proof {
                            assert(lines@ =~= lines0 + style_segments(self.style));
                        }
                    }
                    BlockStyle::Top => {
                        lines.push(Line::create((7, 0), (7, 25)));
                        lines.push(Line::create((25, 0), (25, 25)));
                        lines.push(Line::create((7, 25), (25, 25)));
                        proof {
                            assert(lines@ =~= lines0 + style_segments(self.style));
                        }
                    }
                    BlockStyle::Bottom => {
                        lines.push(Line::create((7, 7), (25, 7)));
                        lines.push(Line::create((7, 7), (7, 32)));
                        lines.push(Line::create((25, 7), (25, 32)));
                        proof {
                            assert(lines@ =~= lines0 + style_segments(self.style));
                        }
                    }
                    BlockStyle::Left => {
                        lines.push(Line::create((0, 7), (25, 7)));
                        lines.push(Line::create((25, 7), (25, 25)));
                        lines.push(Line::create((0, 25), (25, 25)));
                        proof {
                            assert(lines@ =~= lines0 + style_segments(self.style));
                        }
                    }
                    BlockStyle::Right => {
                        lines.push(Line::create((7, 7), (32, 7)));
                        lines.push(Line::create((7, 7), (7, 25)));
                        lines.push(Line::create((7, 25), (32, 25)));
                        proof {
                            assert(lines@ =~= lines0 + style_segments(self.style));
                        }
                    }
                    BlockStyle::TopBottom => {
                        lines.push(Line::create((7, 0), (7, 32)));
                        lines.push(Line::create((25, 0), (25, 32)));
                        proof {
                            assert(lines@ =~= lines0 + style_segments(self.style));
                        }
                    }
                    BlockStyle::LeftRight => {
                        lines.push(Line::create((0, 7), (32, 7)));
                        lines.push(Line::create((0, 25), (32, 25)));
                        proof {
                            assert(lines@ =~= lines0 + style_segments(self.style));
                        }
                    }
                    BlockStyle::BottomRight => {
                        lines.push(Line::create((7, 7), (32, 7)));
                        lines.push(Line::create((7, 7), (7, 32)));
                        lines.push(Line::create((25, 25), (25, 32)));
                        lines.push(Line::create((25, 25), (32, 25)));
                        proof {
                            assert(lines@ =~= lines0 + style_segments(self.style));
                        }
                    }
                    BlockStyle::BottomLeft => {
                        lines.push(Line::create((0, 7), (25, 7)));
                        lines.push(Line::create((0, 25), (7, 25)));
                        lines.push(Line::create((7, 25), (7, 32)));
                        lines.push(Line::create((25, 7), (25, 32)));
                        proof {
                            assert(lines@ =~= lines0 + style_segments(self.style));
                        }
                    }
                    BlockStyle::TopRight => {
                        lines.push(Line::create((7, 0), (7, 25)));
                        lines.push(Line::create((7, 25), (32, 25)));
                        lines.push(Line::create((25, 0), (25, 7)));
                        lines.push(Line::create((25, 7), (32, 7)));
                        proof {
                            assert(lines@ =~= lines0 + style_segments(self.style));
                        }
                    }
                    BlockStyle::TopLeft => {
                        lines.push(Line::create((0, 7), (7, 7)));
                        lines.push(Line::create((7, 0), (7, 7)));
                        lines.push(Line::create((25, 0), (25, 25)));
                        lines.push(Line::create((0, 25), (25, 25)));
                        proof {
                            assert(lines@ =~= lines0 + style_segments(self.style));
                        }
                    }
                }
                self.rect = Graphics::Line(lines);
            }
            other => {
                self.rect = other;
            }
        }
    }

    pub fn get_name(&self) -> (r: &String)
        ensures
            r@ == self@.name,
    {
        &self.name
    }

    pub fn get_graphics(&self) -> (r: &Graphics)
        ensures
            r@ == self@.rect,
    {
        &self.rect
    }

    pub fn get_pos(&self) -> (r: (i32, i32))
        ensures
            r.0 == self@.x,
            r.1 == self@.y,
    {
        (self.x, self.y)
    }

    pub fn get_color(&self) -> (r: Color)
        ensures
            r == self@.color,
    {
        self.color
    }

    /// Lifecycle hook: runs shape generation once, before the first frame.
    pub fn start(&mut self)
        ensures
            final(self)@ == old(self)@.started(),
    {
        self.generate_style();
    }

    /// Blocks are static: the per-frame update does nothing.
    pub fn update(&mut self)
        ensures
            final(self)@ == old(self)@,
    {
    }

    /// Blocks ignore key events.
    pub fn on_key_down(&mut self, _keycode: crate::entity::Keycode)
        ensures
            final(self)@ == old(self)@,
    {
    }
}

impl Clone for Block {
    fn clone(&self) -> (res: Block)
        ensures
            res@ == self@,
    {
        Block {
            name: self.name.clone(),
            x: self.x,
            y: self.y,
            rect: self.rect.clone(),
            color: self.color,
            style: self.style,
        }
    }
}

} // verus!
