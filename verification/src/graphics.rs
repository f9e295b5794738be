//! Visual descriptors: line segments anchored to a grid cell, or an image
//! asset reference, plus the draw color handed to the rendering backend.

use vstd::prelude::*;

verus! {

/// A line segment in local cell coordinates; translated to world
/// coordinates at render time via [`Line::set_pos`].
pub struct Line {
    pub start: (i32, i32),
    pub end: (i32, i32),
}

impl Line {
    pub fn create(start: (i32, i32), end: (i32, i32)) -> (r: Line)
        ensures
            r == (Line { start, end }),
    {
        Line { start, end }
    }

    /// Translates both endpoints by the entity's world position.
    pub fn set_pos(&mut self, x: i32, y: i32)
        requires
            i32::MIN <= old(self).start.0 + x <= i32::MAX,
            i32::MIN <= old(self).start.1 + y <= i32::MAX,
            i32::MIN <= old(self).end.0 + x <= i32::MAX,
            i32::MIN <= old(self).end.1 + y <= i32::MAX,
        ensures
            final(self).start.0 == old(self).start.0 + x,
            final(self).start.1 == old(self).start.1 + y,
            final(self).end.0 == old(self).end.0 + x,
            final(self).end.1 == old(self).end.1 + y,
    {
        self.start = (self.start.0 + x, self.start.1 + y);
        self.end = (self.end.0 + x, self.end.1 + y);
    }
}

impl Clone for Line {
    fn clone(&self) -> (res: Line)
        ensures
            res == *self,
    {
        Line { start: self.start, end: self.end }
    }
}

/// An RGB draw color, handed unchanged to the rendering backend.
#[derive(Clone, Copy, PartialEq, Eq, Structural)]
pub struct Color {
    pub r: u8,
    pub g: u8,
    pub b: u8,
}

/// How an entity is rendered: a set of line segments in cell-local
/// coordinates, or a 32x32 image stamped from an asset path.
pub enum Graphics {
    Line(Vec<Line>),
    Image { path: String },
}

/// Mathematical model of a visual descriptor.
pub ghost enum GraphicsV {
    Lines(Seq<Line>),
    Image(Seq<char>),
}

impl View for Graphics {
    type V = GraphicsV;

    open spec fn view(&self) -> GraphicsV {
        match self {
            Graphics::Line(lines) => GraphicsV::Lines(lines@),
            Graphics::Image { path } => GraphicsV::Image(path@),
        }
    }
}

impl Clone for Graphics {
    fn clone(&self) -> (res: Graphics)
        ensures
            res@ == self@,
    {
        match self {
            Graphics::Line(lines) => {
                let mut copied: Vec<Line> = Vec::new();
                let mut i: usize = 0;
                while i < lines.len()
                    invariant
                        i <= lines.len(),
                        copied@ =~= lines@.subrange(0, i as int),
                    decreases lines.len() - i,
                {
                    copied.push(lines[i].clone());
                    i += 1;
                }
                proof {
                    assert(copied@ =~= lines@);
                }
                Graphics::Line(copied)
            }
            Graphics::Image { path } => Graphics::Image { path: path.clone() },
        }
    }
}

} // verus!
