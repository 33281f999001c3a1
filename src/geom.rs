use vstd::prelude::*;

verus! {

/// A point or displacement, in milli-units.
#[derive(Clone, Copy, Debug, PartialEq, Eq, Structural)]
pub struct Vec2 {
    pub x: i64,
    pub y: i64,
}

/// An axis-aligned rectangle: its top-left corner and its size, in milli-units.
#[derive(Clone, Copy, Debug, PartialEq, Eq, Structural)]
pub struct Rect {
    pub x: i64,
    pub y: i64,
    pub w: i64,
    pub h: i64,
}

/// Two closed rectangles intersect (touching edges count).
pub open spec fn rects_overlap(a: Rect, b: Rect) -> bool {
    &&& a.x <= b.x + b.w
    &&& a.x + a.w >= b.x
    &&& a.y <= b.y + b.h
    &&& a.y + a.h >= b.y
}

pub fn vec2(x: i64, y: i64) -> (r: Vec2)
    ensures
        r == (Vec2 { x, y }),
{
    Vec2 { x, y }
}

impl Rect {
    pub fn new(x: i64, y: i64, w: i64, h: i64) -> (r: Rect)
        ensures
            r == (Rect { x, y, w, h }),
    {
        Rect { x, y, w, h }
    }

    /// Intersection test of two rectangles; the sums are taken without overflow.
    pub fn overlaps(&self, other: &Rect) -> (r: bool)
        ensures
            r == rects_overlap(*self, *other),
    {
        let sl = self.x as i128;
        let st = self.y as i128;
        let sr = sl + self.w as i128;
        let sb = st + self.h as i128;
        let ol = other.x as i128;
        let ot = other.y as i128;
        let or = ol + other.w as i128;
        let ob = ot + other.h as i128;
        sl <= or && sr >= ol && st <= ob && sb >= ot
    }
}

} // verus!
