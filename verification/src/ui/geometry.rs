//! Places and areas on the screen, in cells.

use vstd::prelude::*;

verus! {

#[derive(Debug, Clone, Copy, PartialEq, Eq, Structural)]
pub struct Position {
    pub x: u16,
    pub y: u16,
}

#[derive(Debug, Clone, Copy, PartialEq, Eq, Structural)]
pub struct Size {
    pub width: u16,
    pub height: u16,
}

impl Size {
    pub fn new(width: u16, height: u16) -> (r: Self)
        ensures
            r == (Size { width, height }),
    {
        Size { width, height }
    }
}

#[derive(Debug, Clone, Copy, PartialEq, Eq, Structural)]
pub struct Rect {
    pub x: u16,
    pub y: u16,
    pub width: u16,
    pub height: u16,
}

pub open spec fn smaller(a: int, b: int) -> int {
    if a < b {
        a
    } else {
        b
    }
}

pub open spec fn larger(a: int, b: int) -> int {
    if a < b {
        b
    } else {
        a
    }
}

impl Rect {
    pub fn new(x: u16, y: u16, width: u16, height: u16) -> (r: Self)
        ensures
            r == (Rect { x, y, width, height }),
    {
        Rect { x, y, width, height }
    }

    /// The column right of the area. Columns end at the largest number there is.
    pub open spec fn right_edge(self) -> int {
        smaller(self.x + self.width, u16::MAX as int)
    }

    /// The row below the area. Rows end at the largest number there is.
    pub open spec fn bottom_edge(self) -> int {
        smaller(self.y + self.height, u16::MAX as int)
    }

    /// Whether this area lies inside another one, as far as they lie on the screen.
    pub open spec fn is_inside(self, area: Rect) -> bool {
        &&& area.x <= self.x
        &&& area.y <= self.y
        &&& self.right_edge() <= area.right_edge()
        &&& self.bottom_edge() <= area.bottom_edge()
    }

    /// The smallest area that holds both areas.
    pub open spec fn united(self, other: Rect) -> Rect {
        let x = smaller(self.x as int, other.x as int);
        let y = smaller(self.y as int, other.y as int);
        Rect {
            x: x as u16,
            y: y as u16,
            width: (larger(self.right_edge(), other.right_edge()) - x) as u16,
            height: (larger(self.bottom_edge(), other.bottom_edge()) - y) as u16,
        }
    }

    pub fn right(self) -> (r: u16)
        ensures
            r == self.right_edge(),
    {
        if self.width <= u16::MAX - self.x {
            self.x + self.width
        } else {
            u16::MAX
        }
    }

    pub fn bottom(self) -> (r: u16)
        ensures
            r == self.bottom_edge(),
    {
        if self.height <= u16::MAX - self.y {
            self.y + self.height
        } else {
            u16::MAX
        }
    }

    pub fn union(self, other: Rect) -> (r: Rect)
        ensures
            r == self.united(other),
    {
        let x: u16 = if self.x < other.x {
            self.x
        } else {
            other.x
        };
        let y: u16 = if self.y < other.y {
            self.y
        } else {
            other.y
        };
        let right: u16 = if self.right() < other.right() {
            other.right()
        } else {
            self.right()
        };
        let bottom: u16 = if self.bottom() < other.bottom() {
            other.bottom()
        } else {
            self.bottom()
        };
        Rect { x, y, width: right - x, height: bottom - y }
    }

    /// The size of the area.
    pub fn as_size(self) -> (r: Size)
        ensures
            r == (Size { width: self.width, height: self.height }),
    {
        Size { width: self.width, height: self.height }
    }

    /// Whether the area can grow by one cell on each side.
    pub open spec fn can_grow(self) -> bool {
        &&& self.x >= 1
        &&& self.y >= 1
        &&& self.width + 2 <= u16::MAX
        &&& self.height + 2 <= u16::MAX
    }

    /// The area with one more cell on each side.
    pub open spec fn grown(self) -> Rect {
        Rect {
            x: (self.x - 1) as u16,
            y: (self.y - 1) as u16,
            width: (self.width + 2) as u16,
            height: (self.height + 2) as u16,
        }
    }

    /// The area with one more cell on each side, where there is room for it.
    pub fn grow(self) -> (r: Option<Rect>)
        ensures
            r == (if self.can_grow() {
                Some(self.grown())
            } else {
                None
            }),
    {
        if self.x >= 1 && self.y >= 1 && self.width <= u16::MAX - 2 && self.height <= u16::MAX - 2 {
            Some(
                Rect {
                    x: self.x - 1,
                    y: self.y - 1,
                    width: self.width + 2,
                    height: self.height + 2,
                },
            )
        } else {
            None
        }
    }
}

/// The union of two areas holds both of them, as far as they lie on the screen.
pub proof fn law_union_holds_both(a: Rect, b: Rect)
    ensures
        a.is_inside(a.united(b)),
        b.is_inside(a.united(b)),
        a.united(b) == b.united(a),
{
}

/// The union of two areas is the smallest area that holds both: every other one holds it.
pub proof fn law_union_is_smallest(a: Rect, b: Rect, other: Rect)
    requires
        a.is_inside(other),
        b.is_inside(other),
    ensures
        a.united(b).is_inside(other),
{
}

/// An area ends behind its last cell, or at the largest number there is.
pub proof fn law_edges(area: Rect)
    ensures
        area.x + area.width <= u16::MAX ==> area.right_edge() == area.x + area.width,
        area.x + area.width > u16::MAX ==> area.right_edge() == u16::MAX,
        area.y + area.height <= u16::MAX ==> area.bottom_edge() == area.y + area.height,
        area.y + area.height > u16::MAX ==> area.bottom_edge() == u16::MAX,
{
}

/// An area that has grown has one more row and one more column on each side.
pub proof fn law_grown_area_has_a_border(area: Rect)
    requires
        area.can_grow(),
    ensures
        area.grown().x + 1 == area.x,
        area.grown().y + 1 == area.y,
        area.grown().x + area.grown().width == area.x + area.width + 1,
        area.grown().y + area.grown().height == area.y + area.height + 1,
        area.is_inside(area.grown()),
{
}

/// An area can grow wherever there is a cell to spare on each side.
pub proof fn law_areas_off_the_edges_can_grow(area: Rect)
    ensures
        area.x > 0 && area.y > 0 && area.width <= u16::MAX - 2 && area.height <= u16::MAX - 2 <==>
            area.can_grow(),
{
}

} // verus!
