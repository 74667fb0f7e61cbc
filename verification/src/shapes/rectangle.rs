//! Axis-aligned rectangles on the grid.

use vstd::prelude::*;

verus! {

/// An axis-aligned rectangle. `(x, y)` is its top-left corner; `y` grows
/// upwards, so the rectangle reaches from `y` down to `y - height`.
#[derive(Debug, Copy, Clone, PartialEq, Eq, Structural)]
pub struct Rectangle {
    pub x: i32,
    pub y: i32,
    pub width: i32,
    pub height: i32,
}

impl Rectangle {
    /// The abscissa of the left edge.
    pub open spec fn left(self) -> int {
        self.x as int
    }

    /// The abscissa of the right edge.
    pub open spec fn right(self) -> int {
        self.x + self.width
    }

    /// The ordinate of the top edge.
    pub open spec fn top(self) -> int {
        self.y as int
    }

    /// The ordinate of the bottom edge.
    pub open spec fn bottom(self) -> int {
        self.y - self.height
    }

    /// The four corners, clockwise from the top-left one.
    pub open spec fn corners(self) -> Seq<(int, int)> {
        seq![
            (self.left(), self.top()),
            (self.right(), self.top()),
            (self.right(), self.bottom()),
            (self.left(), self.bottom()),
        ]
    }

    pub fn new(x: i32, y: i32, width: i32, height: i32) -> (res: Rectangle)
        ensures
            res == (Rectangle { x, y, width, height }),
    {
        Rectangle { x, y, width, height }
    }

    pub fn get_x(&self) -> (res: i32)
        ensures
            res == self.x,
    {
        self.x
    }

    pub fn get_y(&self) -> (res: i32)
        ensures
            res == self.y,
    {
        self.y
    }

    pub fn set_x(&mut self, x: i32)
        ensures
            *final(self) == (Rectangle { x, ..*old(self) }),
    {
        self.x = x;
    }

    pub fn set_y(&mut self, y: i32)
        ensures
            *final(self) == (Rectangle { y, ..*old(self) }),
    {
        self.y = y;
    }

    pub fn get_width(&self) -> (res: i32)
        ensures
            res == self.width,
    {
        self.width
    }

    pub fn get_height(&self) -> (res: i32)
        ensures
            res == self.height,
    {
        self.height
    }

    pub fn set_width(&mut self, width: i32)
        ensures
            *final(self) == (Rectangle { width, ..*old(self) }),
    {
        self.width = width;
    }

    pub fn set_height(&mut self, height: i32)
        ensures
            *final(self) == (Rectangle { height, ..*old(self) }),
    {
        self.height = height;
    }

    /// The four corners, clockwise from the top-left one, each as `[x, y]`.
    pub fn get_coordinate_corners(&self) -> (res: [[i64; 2]; 4])
        ensures
            forall|i: int| 0 <= i < 4 ==> #[trigger] res[i][0] == self.corners()[i].0,
            forall|i: int| 0 <= i < 4 ==> #[trigger] res[i][1] == self.corners()[i].1,
    {
        let left: i64 = self.x as i64;
        let right: i64 = self.x as i64 + self.width as i64;
        let top: i64 = self.y as i64;
        let bottom: i64 = self.y as i64 - self.height as i64;
        [[left, top], [right, top], [right, bottom], [left, bottom]]
    }
}

} // verus!
