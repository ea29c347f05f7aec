//! The capabilities shared by everything the simulation can collide.

use vstd::prelude::*;
use crate::block::{block_in_range, Block};
use crate::grid::{Col, Row};
use crate::segment::{seg_in_range, Segment};
use crate::vec2::Vec2;
use crate::wall::{lemma_wall_sides_in_range, wall_in_range, Wall};
use crate::COORD_LIMIT;

verus! {

/// The smaller of two coordinates.
pub open spec fn min_i64(a: i64, b: i64) -> i64 {
    if a < b {
        a
    } else {
        b
    }
}

/// The larger of two coordinates.
pub open spec fn max_i64(a: i64, b: i64) -> i64 {
    if a < b {
        b
    } else {
        a
    }
}

pub fn min64(a: i64, b: i64) -> (m: i64)
    ensures
        m == min_i64(a, b),
{
    if a < b {
        a
    } else {
        b
    }
}

pub fn max64(a: i64, b: i64) -> (m: i64)
    ensures
        m == max_i64(a, b),
{
    if a < b {
        b
    } else {
        a
    }
}

/// The axis-aligned bounding box of four boundary segments: the min/max
/// corner over all eight endpoints, packed as a segment from the min
/// corner to the max corner.
pub open spec fn spec_aabb(t: Segment, r: Segment, b: Segment, l: Segment) -> Segment {
    Segment {
        start: Vec2 {
            x: min_i64(
                min_i64(min_i64(t.start.x, t.end.x), min_i64(r.start.x, r.end.x)),
                min_i64(min_i64(b.start.x, b.end.x), min_i64(l.start.x, l.end.x)),
            ),
            y: min_i64(
                min_i64(min_i64(t.start.y, t.end.y), min_i64(r.start.y, r.end.y)),
                min_i64(min_i64(b.start.y, b.end.y), min_i64(l.start.y, l.end.y)),
            ),
        },
        end: Vec2 {
            x: max_i64(
                max_i64(max_i64(t.start.x, t.end.x), max_i64(r.start.x, r.end.x)),
                max_i64(max_i64(b.start.x, b.end.x), max_i64(l.start.x, l.end.x)),
            ),
            y: max_i64(
                max_i64(max_i64(t.start.y, t.end.y), max_i64(r.start.y, r.end.y)),
                max_i64(max_i64(b.start.y, b.end.y), max_i64(l.start.y, l.end.y)),
            ),
        },
    }
}

/// A world coordinate divided by the grid cell size, floored, with
/// negative coordinates clamped to cell zero.
pub open spec fn spec_div_clamp(v: int, spacing: int) -> int {
    if v <= 0 {
        0
    } else {
        v / spacing
    }
}

fn div_clamp(v: i64, spacing: i64) -> (r: usize)
    requires
        1 <= spacing,
        v <= COORD_LIMIT,
    ensures
        r == spec_div_clamp(v as int, spacing as int),
{
    if v <= 0 {
        0
    } else {
        let q: u64 = (v as u64) / (spacing as u64);
        assert((v as u64) / (spacing as u64) <= v as u64) by (nonlinear_arith)
            requires
                spacing as u64 >= 1,
        ;
        q as usize
    }
}

/// A boundary-capable object: anything that exposes its four boundary
/// segments, in the fixed order top, right, bottom, left, and with them a
/// derived bounding box and the grid cell ranges that box overlaps.
pub trait Sides {
    /// The values on which the four boundary segments are defined (and
    /// their arithmetic free of overflow).
    spec fn sides_ok(&self) -> bool;

    spec fn spec_top(&self) -> Segment;

    spec fn spec_right(&self) -> Segment;

    spec fn spec_bottom(&self) -> Segment;

    spec fn spec_left(&self) -> Segment;

    fn top(&self) -> (s: Segment)
        requires
            self.sides_ok(),
        ensures
            s == self.spec_top(),
    ;

    fn right(&self) -> (s: Segment)
        requires
            self.sides_ok(),
        ensures
            s == self.spec_right(),
    ;

    fn bottom(&self) -> (s: Segment)
        requires
            self.sides_ok(),
        ensures
            s == self.spec_bottom(),
    ;

    fn left(&self) -> (s: Segment)
        requires
            self.sides_ok(),
        ensures
            s == self.spec_left(),
    ;

    /// The axis-aligned bounding box: min/max corner over all eight
    /// endpoints of the four boundary segments.
    fn aabb(&self) -> (bb: Segment)
        requires
            self.sides_ok(),
        ensures
            bb == spec_aabb(self.spec_top(), self.spec_right(), self.spec_bottom(), self.spec_left()),
    {
        let t = self.top();
        let r = self.right();
        let b = self.bottom();
        let l = self.left();
        let min_x = min64(
            min64(min64(t.start.x, t.end.x), min64(r.start.x, r.end.x)),
            min64(min64(b.start.x, b.end.x), min64(l.start.x, l.end.x)),
        );
        let min_y = min64(
            min64(min64(t.start.y, t.end.y), min64(r.start.y, r.end.y)),
            min64(min64(b.start.y, b.end.y), min64(l.start.y, l.end.y)),
        );
        let max_x = max64(
            max64(max64(t.start.x, t.end.x), max64(r.start.x, r.end.x)),
            max64(max64(b.start.x, b.end.x), max64(l.start.x, l.end.x)),
        );
        let max_y = max64(
            max64(max64(t.start.y, t.end.y), max64(r.start.y, r.end.y)),
            max64(max64(b.start.y, b.end.y), max64(l.start.y, l.end.y)),
        );
        Segment { start: Vec2 { x: min_x, y: min_y }, end: Vec2 { x: max_x, y: max_y } }
    }

    /// The inclusive row and column ranges of the grid cells the bounding
    /// box overlaps: each corner coordinate divided by the cell size and
    /// floored, with negative coordinates clamped to cell zero.
    fn calculate_grid_ranges(&self, spacing: i64) -> (ranges: ((Row, Row), (Col, Col)))
        requires
            1 <= spacing,
            self.sides_ok(),
            seg_in_range(self.spec_top()),
            seg_in_range(self.spec_right()),
            seg_in_range(self.spec_bottom()),
            seg_in_range(self.spec_left()),
        ensures
            ({
                let bb = spec_aabb(
                    self.spec_top(),
                    self.spec_right(),
                    self.spec_bottom(),
                    self.spec_left(),
                );
                &&& ranges.0.0.0 == spec_div_clamp(bb.start.y as int, spacing as int)
                &&& ranges.0.1.0 == spec_div_clamp(bb.end.y as int, spacing as int)
                &&& ranges.1.0.0 == spec_div_clamp(bb.start.x as int, spacing as int)
                &&& ranges.1.1.0 == spec_div_clamp(bb.end.x as int, spacing as int)
            }),
    {
        let bb = self.aabb();
        let row_start = div_clamp(bb.start.y, spacing);
        let row_end = div_clamp(bb.end.y, spacing);
        let col_start = div_clamp(bb.start.x, spacing);
        let col_end = div_clamp(bb.end.x, spacing);
        ((Row(row_start), Row(row_end)), (Col(col_start), Col(col_end)))
    }
}

/// Read and move an object's position.
pub trait Position where Self: Sized {
    spec fn spec_position(&self) -> Vec2;

    /// The same object carried to position `p`.
    spec fn spec_with_position(&self, p: Vec2) -> Self;

    fn position(&self) -> (p: Vec2)
        ensures
            p == self.spec_position(),
    ;

    fn set_position(&mut self, new_position: Vec2)
        ensures
            *final(self) == old(self).spec_with_position(new_position),
    ;
}

/// Force the direction of a speed vector along one axis, keeping its
/// magnitude: the redirection policy applied on contact.
pub trait Redirect where Self: Sized {
    /// The values on which the four redirections are defined.
    spec fn redirect_ok(&self) -> bool;

    spec fn spec_move_up(&self) -> Self;

    spec fn spec_move_down(&self) -> Self;

    spec fn spec_move_right(&self) -> Self;

    spec fn spec_move_left(&self) -> Self;

    fn move_up(self) -> (r: Self)
        requires
            self.redirect_ok(),
        ensures
            r == self.spec_move_up(),
    ;

    fn move_down(self) -> (r: Self)
        requires
            self.redirect_ok(),
        ensures
            r == self.spec_move_down(),
    ;

    fn move_right(self) -> (r: Self)
        requires
            self.redirect_ok(),
        ensures
            r == self.spec_move_right(),
    ;

    fn move_left(self) -> (r: Self)
        requires
            self.redirect_ok(),
        ensures
            r == self.spec_move_left(),
    ;
}

/// The narrow phase as a capability: anything boundary-capable can be
/// tested against anything else boundary-capable.
pub trait Collision where Self: Sides {
    /// As the crate-level `check_collision`: per subject edge, the first
    /// crossing candidate edge in priority order fills the slot.
    fn check_collision<O: Sides>(&self, other: &O) -> (r: crate::collision_result::CollisionResult)
        requires
            self.sides_ok(),
            other.sides_ok(),
            seg_in_range(self.spec_top()),
            seg_in_range(self.spec_right()),
            seg_in_range(self.spec_bottom()),
            seg_in_range(self.spec_left()),
            seg_in_range(other.spec_top()),
            seg_in_range(other.spec_right()),
            seg_in_range(other.spec_bottom()),
            seg_in_range(other.spec_left()),
        ensures
            r == crate::spec_check_collision(
                self.spec_top(),
                self.spec_right(),
                self.spec_bottom(),
                self.spec_left(),
                other.spec_top(),
                other.spec_right(),
                other.spec_bottom(),
                other.spec_left(),
            ),
    ;
}

impl<T: Sides> Collision for T {
    fn check_collision<O: Sides>(&self, other: &O) -> (r: crate::collision_result::CollisionResult) {
        crate::check_collision(self, other)
    }
}

/// A participant of the broad phase: the closed set of things a grid
/// handle can refer to.  The kinds are fixed, so queries dispatch on the
/// tag instead of an open-ended dynamic interface.
#[derive(Clone, Copy, PartialEq, Debug)]
pub enum GridItem {
    Wall(Wall),
    Block(Block),
}

impl GridItem {
    /// The payload's own validity.
    pub open spec fn wf(&self) -> bool {
        match self {
            GridItem::Wall(w) => wall_in_range(*w),
            GridItem::Block(b) => block_in_range(*b),
        }
    }
}

impl Sides for GridItem {
    open spec fn sides_ok(&self) -> bool {
        self.wf()
    }

    open spec fn spec_top(&self) -> Segment {
        match self {
            GridItem::Wall(w) => w.spec_top(),
            GridItem::Block(b) => b.spec_top(),
        }
    }

    open spec fn spec_right(&self) -> Segment {
        match self {
            GridItem::Wall(w) => w.spec_right(),
            GridItem::Block(b) => b.spec_right(),
        }
    }

    open spec fn spec_bottom(&self) -> Segment {
        match self {
            GridItem::Wall(w) => w.spec_bottom(),
            GridItem::Block(b) => b.spec_bottom(),
        }
    }

    open spec fn spec_left(&self) -> Segment {
        match self {
            GridItem::Wall(w) => w.spec_left(),
            GridItem::Block(b) => b.spec_left(),
        }
    }

    fn top(&self) -> (s: Segment) {
        match self {
            GridItem::Wall(w) => w.top(),
            GridItem::Block(b) => b.top(),
        }
    }

    fn right(&self) -> (s: Segment) {
        match self {
            GridItem::Wall(w) => w.right(),
            GridItem::Block(b) => b.right(),
        }
    }

    fn bottom(&self) -> (s: Segment) {
        match self {
            GridItem::Wall(w) => w.bottom(),
            GridItem::Block(b) => b.bottom(),
        }
    }

    fn left(&self) -> (s: Segment) {
        match self {
            GridItem::Wall(w) => w.left(),
            GridItem::Block(b) => b.left(),
        }
    }
}

/// A valid participant's boundary segments all lie within the coordinate
/// range the exact intersection arithmetic accepts.
pub proof fn lemma_grid_item_sides_in_range(it: GridItem)
    requires
        it.wf(),
    ensures
        seg_in_range(it.spec_top()),
        seg_in_range(it.spec_right()),
        seg_in_range(it.spec_bottom()),
        seg_in_range(it.spec_left()),
{
    match it {
        GridItem::Wall(w) => {
            lemma_wall_sides_in_range(w);
        },
        GridItem::Block(b) => {
        },
    }
}

} // verus!
