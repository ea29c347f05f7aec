//! Axis-aligned rectangles: the shape of every dynamic body.

use vstd::prelude::*;
use crate::segment::Segment;
use crate::traits::{Position, Sides};
use crate::vec2::Vec2;
use crate::ENTITY_LIMIT;

verus! {

/// An axis-aligned rectangle given by its top-left corner and its size,
/// in integer world units.
#[derive(Clone, Copy, PartialEq, Eq, Structural, Debug)]
pub struct Rect {
    pub x: i64,
    pub y: i64,
    pub width: i64,
    pub height: i64,
}

/// Position within the entity coordinate bound and size non-negative and
/// bounded, so that every derived corner stays within the range the exact
/// intersection arithmetic accepts.
pub open spec fn rect_in_range(r: Rect) -> bool {
    &&& -ENTITY_LIMIT <= r.x <= ENTITY_LIMIT
    &&& -ENTITY_LIMIT <= r.y <= ENTITY_LIMIT
    &&& 0 <= r.width <= ENTITY_LIMIT
    &&& 0 <= r.height <= ENTITY_LIMIT
}

impl Rect {
    pub fn new(x: i64, y: i64, width: i64, height: i64) -> (r: Rect)
        ensures
            r == (Rect { x, y, width, height }),
    {
        Rect { x, y, width, height }
    }
}

impl Sides for Rect {
    open spec fn sides_ok(&self) -> bool {
        rect_in_range(*self)
    }

    open spec fn spec_top(&self) -> Segment {
        Segment {
            start: Vec2 { x: self.x, y: self.y },
            end: Vec2 { x: (self.x + self.width) as i64, y: self.y },
        }
    }

    open spec fn spec_right(&self) -> Segment {
        Segment {
            start: Vec2 { x: (self.x + self.width) as i64, y: self.y },
            end: Vec2 { x: (self.x + self.width) as i64, y: (self.y + self.height) as i64 },
        }
    }

    open spec fn spec_bottom(&self) -> Segment {
        Segment {
            start: Vec2 { x: self.x, y: (self.y + self.height) as i64 },
            end: Vec2 { x: (self.x + self.width) as i64, y: (self.y + self.height) as i64 },
        }
    }

    open spec fn spec_left(&self) -> Segment {
        Segment {
            start: Vec2 { x: self.x, y: self.y },
            end: Vec2 { x: self.x, y: (self.y + self.height) as i64 },
        }
    }

    fn top(&self) -> (s: Segment) {
        Segment {
            start: Vec2 { x: self.x, y: self.y },
            end: Vec2 { x: self.x + self.width, y: self.y },
        }
    }

    fn right(&self) -> (s: Segment) {
        Segment {
            start: Vec2 { x: self.x + self.width, y: self.y },
            end: Vec2 { x: self.x + self.width, y: self.y + self.height },
        }
    }

    fn bottom(&self) -> (s: Segment) {
        Segment {
            start: Vec2 { x: self.x, y: self.y + self.height },
            end: Vec2 { x: self.x + self.width, y: self.y + self.height },
        }
    }

    fn left(&self) -> (s: Segment) {
        Segment {
            start: Vec2 { x: self.x, y: self.y },
            end: Vec2 { x: self.x, y: self.y + self.height },
        }
    }
}

impl Position for Rect {
    open spec fn spec_position(&self) -> Vec2 {
        Vec2 { x: self.x, y: self.y }
    }

    open spec fn spec_with_position(&self, p: Vec2) -> Rect {
        Rect { x: p.x, y: p.y, width: self.width, height: self.height }
    }

    fn position(&self) -> (p: Vec2) {
        Vec2 { x: self.x, y: self.y }
    }

    fn set_position(&mut self, new_position: Vec2) {
        self.x = new_position.x;
        self.y = new_position.y;
    }
}

} // verus!
