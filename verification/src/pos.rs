//! Positions, rectangles and sheet identifiers.

use vstd::prelude::*;

verus! {

/// A cell position: column `x`, row `y`.
#[derive(Clone, Copy, Debug, PartialEq, Eq, Hash, Structural)]
pub struct Pos {
    pub x: i64,
    pub y: i64,
}

impl Pos {
    pub fn new(x: i64, y: i64) -> (p: Pos)
        ensures
            p == (Pos { x, y }),
    {
        Pos { x, y }
    }

    /// The position on a given sheet.
    pub fn to_sheet_pos(&self, sheet_id: SheetId) -> (p: SheetPos)
        ensures
            p == (SheetPos { x: self.x, y: self.y, sheet_id }),
    {
        SheetPos { x: self.x, y: self.y, sheet_id }
    }

    /// Column-major strict order: by `x`, then by `y`.
    pub open spec fn precedes(self, other: Pos) -> bool {
        self.x < other.x || (self.x == other.x && self.y < other.y)
    }

    pub fn is_before(&self, other: &Pos) -> (b: bool)
        ensures
            b == self.precedes(*other),
    {
        self.x < other.x || (self.x == other.x && self.y < other.y)
    }
}

/// A rectangle of cells, both corners included. It is empty when `max` lies
/// left of or above `min`.
#[derive(Clone, Copy, Debug, PartialEq, Eq, Hash, Structural)]
pub struct Rect {
    pub min: Pos,
    pub max: Pos,
}

impl Rect {
    pub open spec fn spec_contains(&self, pos: Pos) -> bool {
        self.min.x <= pos.x <= self.max.x && self.min.y <= pos.y <= self.max.y
    }

    pub open spec fn spec_intersects(&self, other: Rect) -> bool {
        &&& self.min.x <= other.max.x
        &&& other.min.x <= self.max.x
        &&& self.min.y <= other.max.y
        &&& other.min.y <= self.max.y
        &&& self.min.x <= self.max.x
        &&& self.min.y <= self.max.y
        &&& other.min.x <= other.max.x
        &&& other.min.y <= other.max.y
    }

    pub fn new(x0: i64, y0: i64, x1: i64, y1: i64) -> (r: Rect)
        ensures
            r == (Rect { min: Pos { x: x0, y: y0 }, max: Pos { x: x1, y: y1 } }),
    {
        Rect { min: Pos { x: x0, y: y0 }, max: Pos { x: x1, y: y1 } }
    }

    pub fn single_pos(pos: Pos) -> (r: Rect)
        ensures
            r == (Rect { min: pos, max: pos }),
    {
        Rect { min: pos, max: pos }
    }

    #[verifier::when_used_as_spec(spec_contains)]
    pub fn contains(&self, pos: Pos) -> (b: bool)
        ensures
            b == self.spec_contains(pos),
    {
        self.min.x <= pos.x && pos.x <= self.max.x && self.min.y <= pos.y && pos.y <= self.max.y
    }

    /// Whether the two rectangles share a cell.
    #[verifier::when_used_as_spec(spec_intersects)]
    pub fn intersects(&self, other: Rect) -> (b: bool)
        ensures
            b == self.spec_intersects(other),
            b <==> exists|p: Pos| self.spec_contains(p) && other.spec_contains(p),
    {
        let b = self.min.x <= other.max.x && other.min.x <= self.max.x && self.min.y <= other.max.y
            && other.min.y <= self.max.y && self.min.x <= self.max.x && self.min.y <= self.max.y
            && other.min.x <= other.max.x && other.min.y <= other.max.y;
        proof {
            if b {
                let x = if self.min.x >= other.min.x { self.min.x } else { other.min.x };
                let y = if self.min.y >= other.min.y { self.min.y } else { other.min.y };
                let p = Pos { x, y };
                assert(self.spec_contains(p) && other.spec_contains(p));
            }
        }
        b
    }

    pub fn to_sheet_rect(&self, sheet_id: SheetId) -> (r: SheetRect)
        ensures
            r == (SheetRect { min: self.min, max: self.max, sheet_id }),
    {
        SheetRect { min: self.min, max: self.max, sheet_id }
    }
}

/// The identity of a sheet. Identifiers are never reused for another sheet.
#[derive(Clone, Copy, Debug, PartialEq, Eq, Hash, Structural)]
pub struct SheetId {
    pub id: u64,
}

impl SheetId {
    pub fn new(id: u64) -> (s: SheetId)
        ensures
            s.id == id,
    {
        SheetId { id }
    }
}

/// A cell position on a particular sheet.
#[derive(Clone, Copy, Debug, PartialEq, Eq, Hash, Structural)]
pub struct SheetPos {
    pub x: i64,
    pub y: i64,
    pub sheet_id: SheetId,
}

impl SheetPos {
    pub open spec fn spec_pos(&self) -> Pos {
        Pos { x: self.x, y: self.y }
    }

    #[verifier::when_used_as_spec(spec_pos)]
    pub fn pos(&self) -> (p: Pos)
        ensures
            p == self.spec_pos(),
    {
        Pos { x: self.x, y: self.y }
    }
}

/// A rectangle on a particular sheet.
#[derive(Clone, Copy, Debug, PartialEq, Eq, Hash, Structural)]
pub struct SheetRect {
    pub min: Pos,
    pub max: Pos,
    pub sheet_id: SheetId,
}

impl SheetRect {
    pub open spec fn spec_rect(&self) -> Rect {
        Rect { min: self.min, max: self.max }
    }

    #[verifier::when_used_as_spec(spec_rect)]
    pub fn rect(&self) -> (r: Rect)
        ensures
            r == self.spec_rect(),
    {
        Rect { min: self.min, max: self.max }
    }
}

} // verus!
