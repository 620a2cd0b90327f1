//! Fixed-point 2D vectors.
//!
//! `Vec2i` is the executable vector (components in milliunits); `V2` is its
//! mathematical model over unbounded integers, which the contracts speak of.

use crate::num::{mag, tdiv};
use vstd::prelude::*;

verus! {

/// Mathematical 2D vector: the model of `Vec2i`.
pub ghost struct V2 {
    pub x: int,
    pub y: int,
}

impl V2 {
    pub open spec fn add(self, o: V2) -> V2 {
        V2 { x: self.x + o.x, y: self.y + o.y }
    }

    pub open spec fn sub(self, o: V2) -> V2 {
        V2 { x: self.x - o.x, y: self.y - o.y }
    }

    pub open spec fn dot(self, o: V2) -> int {
        self.x * o.x + self.y * o.y
    }

    /// Componentwise `v * n / d` with truncating division: the fixed-point
    /// scaling every algorithm in this crate uses.
    pub open spec fn scale_div(self, n: int, d: int) -> V2 {
        V2 { x: tdiv(self.x * n, d), y: tdiv(self.y * n, d) }
    }

    /// Both components have magnitude at most `b`.
    pub open spec fn in_box(self, b: int) -> bool {
        mag(self.x) <= b && mag(self.y) <= b
    }
}

/// Executable fixed-point 2D vector (milliunit components).
#[derive(Clone, Copy, PartialEq, Eq, Structural, Debug)]
pub struct Vec2i {
    pub x: i64,
    pub y: i64,
}

impl View for Vec2i {
    type V = V2;

    open spec fn view(&self) -> V2 {
        V2 { x: self.x as int, y: self.y as int }
    }
}

impl Vec2i {
    pub fn new(x: i64, y: i64) -> (r: Vec2i)
        ensures
            r@ == (V2 { x: x as int, y: y as int }),
    {
        Vec2i { x, y }
    }

    pub fn zero() -> (r: Vec2i)
        ensures
            r@ == (V2 { x: 0int, y: 0int }),
    {
        Vec2i { x: 0, y: 0 }
    }

    /// Componentwise sum; the magnitude bound on both arguments rules out
    /// overflow.
    pub fn add(self, o: Vec2i) -> (r: Vec2i)
        requires
            self@.in_box(0x2000_0000_0000_0000),
            o@.in_box(0x2000_0000_0000_0000),
        ensures
            r@ == self@.add(o@),
    {
        Vec2i { x: self.x + o.x, y: self.y + o.y }
    }

    /// Componentwise difference; the magnitude bound on both arguments rules
    /// out overflow.
    pub fn sub(self, o: Vec2i) -> (r: Vec2i)
        requires
            self@.in_box(0x2000_0000_0000_0000),
            o@.in_box(0x2000_0000_0000_0000),
        ensures
            r@ == self@.sub(o@),
    {
        Vec2i { x: self.x - o.x, y: self.y - o.y }
    }
}

} // verus!
