//! The 2D vector used for positions, speeds and accelerations, in integer
//! world units.

use vstd::prelude::*;
use crate::traits::Redirect;

verus! {

/// An ordered pair of integer coordinates.  The positive x axis points
/// right and the positive y axis points down, as on a screen.
#[derive(Clone, Copy, PartialEq, Eq, Structural, Debug)]
pub struct Vec2 {
    pub x: i64,
    pub y: i64,
}

/// Absolute value, as the redirection policy uses it.
pub open spec fn iabs(v: int) -> int {
    if v < 0 {
        -v
    } else {
        v
    }
}

impl Vec2 {
    pub fn new(x: i64, y: i64) -> (r: Vec2)
        ensures
            r.x == x,
            r.y == y,
    {
        Vec2 { x, y }
    }

    pub fn zero() -> (r: Vec2)
        ensures
            r.x == 0,
            r.y == 0,
    {
        Vec2 { x: 0, y: 0 }
    }
}

impl Redirect for Vec2 {
    open spec fn redirect_ok(&self) -> bool {
        i64::MIN < self.x && i64::MIN < self.y
    }

    /// Upward is negative y: the y component becomes `-|y|`.
    open spec fn spec_move_up(&self) -> Vec2 {
        Vec2 { x: self.x, y: (-iabs(self.y as int)) as i64 }
    }

    /// Downward is positive y: the y component becomes `|y|`.
    open spec fn spec_move_down(&self) -> Vec2 {
        Vec2 { x: self.x, y: iabs(self.y as int) as i64 }
    }

    /// Rightward is positive x: the x component becomes `|x|`.
    open spec fn spec_move_right(&self) -> Vec2 {
        Vec2 { x: iabs(self.x as int) as i64, y: self.y }
    }

    /// Leftward is negative x: the x component becomes `-|x|`.
    open spec fn spec_move_left(&self) -> Vec2 {
        Vec2 { x: (-iabs(self.x as int)) as i64, y: self.y }
    }

    fn move_up(self) -> (r: Vec2) {
        let y = if self.y > 0 {
            -self.y
        } else {
            self.y
        };
        Vec2 { x: self.x, y }
    }

    fn move_down(self) -> (r: Vec2) {
        let y = if self.y < 0 {
            -self.y
        } else {
            self.y
        };
        Vec2 { x: self.x, y }
    }

    fn move_right(self) -> (r: Vec2) {
        let x = if self.x < 0 {
            -self.x
        } else {
            self.x
        };
        Vec2 { x, y: self.y }
    }

    fn move_left(self) -> (r: Vec2) {
        let x = if self.x > 0 {
            -self.x
        } else {
            self.x
        };
        Vec2 { x, y: self.y }
    }
}

} // verus!
