use vstd::prelude::*;

verus! {

/// Number of columns of the full grid.
pub const WIDTH: usize = 30;

/// Number of rows of the full grid.
pub const HEIGHT: usize = 30;

/// A cell coordinate; `x` grows to the right and `y` downwards.
#[derive(Debug, Default, Clone, Copy, PartialEq, Eq, Structural)]
pub struct Position {
    pub x: i32,
    pub y: i32,
}

impl Position {
    pub fn from_xy(x: i32, y: i32) -> (r: Position)
        ensures
            r.x == x,
            r.y == y,
    {
        Position { x, y }
    }
}

/// Width and height of a rectangle, in cells.
#[derive(Debug, Default, Clone, Copy, PartialEq, Eq, Structural)]
pub struct Size {
    pub width: u32,
    pub height: u32,
}

impl Size {
    pub fn from_wh(width: u32, height: u32) -> (r: Size)
        ensures
            r.width == width,
            r.height == height,
    {
        Size { width, height }
    }
}

/// An axis-aligned rectangle: the cells `position.x <= x < position.x + width`,
/// `position.y <= y < position.y + height`.
#[derive(Debug, Default, Clone, Copy, PartialEq, Eq, Structural)]
pub struct Region {
    pub position: Position,
    pub size: Size,
}

impl Region {
    pub fn new(position: Position, size: Size) -> (r: Region)
        ensures
            r.position == position,
            r.size == size,
    {
        Region { position, size }
    }

    pub open spec fn has(self, x: int, y: int) -> bool {
        &&& self.position.x <= x < self.position.x + self.size.width
        &&& self.position.y <= y < self.position.y + self.size.height
    }

    /// The region lies inside the full `WIDTH` x `HEIGHT` grid.
    pub open spec fn within_grid(self) -> bool {
        &&& 0 <= self.position.x
        &&& 0 <= self.position.y
        &&& self.position.x + self.size.width <= WIDTH
        &&& self.position.y + self.size.height <= HEIGHT
    }

    /// Whether the cell at `(x, y)` lies in the region; wide coordinates, so
    /// that a neighbour of any `i32` position can be asked about.
    pub fn contains_xy(&self, x: i64, y: i64) -> (r: bool)
        ensures
            r == self.has(x as int, y as int),
    {
        let x0 = self.position.x as i64;
        let y0 = self.position.y as i64;
        x0 <= x && x < x0 + self.size.width as i64 && y0 <= y && y < y0 + self.size.height as i64
    }

    pub fn contains(&self, p: &Position) -> (r: bool)
        ensures
            r == self.has(p.x as int, p.y as int),
    {
        self.contains_xy(p.x as i64, p.y as i64)
    }
}

} // verus!
