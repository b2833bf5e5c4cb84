//! Axis-aligned boxes and their collision test.
use vstd::prelude::*;

verus! {

/// The abstract value of a hit box: its top-left corner and its size.
pub struct BoxShape {
    pub x: int,
    pub y: int,
    pub width: int,
    pub height: int,
}

/// The right and bottom edges of a box are representable as `i32`.
pub open spec fn edges_fit(b: BoxShape) -> bool {
    &&& b.width <= i32::MAX
    &&& b.height <= i32::MAX
    &&& b.x + b.width <= i32::MAX
    &&& b.y + b.height <= i32::MAX
}

/// Two boxes touch or overlap; edges are inclusive, so boxes that share only
/// an edge or a corner collide.
pub open spec fn overlaps(a: BoxShape, b: BoxShape) -> bool {
    &&& a.x <= b.x + b.width
    &&& b.x <= a.x + a.width
    &&& a.y <= b.y + b.height
    &&& b.y <= a.y + a.height
}

pub struct HitBox {
    x: i32,
    y: i32,
    width: u32,
    height: u32,
}

impl View for HitBox {
    type V = BoxShape;

    closed spec fn view(&self) -> BoxShape {
        BoxShape {
            x: self.x as int,
            y: self.y as int,
            width: self.width as int,
            height: self.height as int,
        }
    }
}

impl HitBox {
    pub fn new(x: i32, y: i32, width: u32, height: u32) -> (r: Self)
        ensures
            r@ == (BoxShape { x: x as int, y: y as int, width: width as int, height: height as int }),
    {
        HitBox { x, y, width, height }
    }

    /// The bottom-right corner.
    pub fn get_rb(&self) -> (r: (i32, i32))
        requires
            edges_fit(self@),
        ensures
            r.0 == self@.x + self@.width,
            r.1 == self@.y + self@.height,
    {
        (self.x + self.width as i32, self.y + self.height as i32)
    }

    /// Whether the two boxes collide.
    pub fn is_hit(a: &HitBox, b: &HitBox) -> (r: bool)
        requires
            edges_fit(a@),
            edges_fit(b@),
        ensures
            r == overlaps(a@, b@),
    {
        let a_left = a.x;
        let a_top = a.y;
        let a_right = a.width as i32 + a.x;
        let a_bottom = a.height as i32 + a.y;

        let b_left = b.x;
        let b_top = b.y;
        let b_right = b.width as i32 + b.x;
        let b_bottom = b.height as i32 + b.y;

        (a_left <= b_right && b_left <= a_right) && (a_top <= b_bottom && b_top <= a_bottom)
    }
}

} // verus!
