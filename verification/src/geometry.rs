//! Integer pixel geometry: points, offsets, axis-aligned rectangles and a
//! uniform grid used to place dialog children.

use vstd::prelude::*;

verus! {

/// Largest coordinate magnitude the library works with. Keeping every
/// coordinate within this bound keeps all pixel arithmetic inside `i32`.
pub const COORD_LIMIT: i32 = 0x0100_0000;

/// A position in device pixels.
#[derive(Clone, Copy, PartialEq, Eq, Structural, Debug)]
pub struct Point {
    pub x: i32,
    pub y: i32,
}

impl Point {
    pub open spec fn wf(self) -> bool {
        &&& -COORD_LIMIT <= self.x <= COORD_LIMIT
        &&& -COORD_LIMIT <= self.y <= COORD_LIMIT
    }

    pub fn new(x: i32, y: i32) -> (p: Point)
        ensures
            p == (Point { x, y }),
    {
        Point { x, y }
    }

    pub fn zero() -> (p: Point)
        ensures
            p == (Point { x: 0, y: 0 }),
    {
        Point { x: 0, y: 0 }
    }
}

/// A displacement in device pixels.
#[derive(Clone, Copy, PartialEq, Eq, Structural, Debug)]
pub struct Offset {
    pub x: i32,
    pub y: i32,
}

impl Offset {
    pub fn new(x: i32, y: i32) -> (o: Offset)
        ensures
            o == (Offset { x, y }),
    {
        Offset { x, y }
    }

    pub fn zero() -> (o: Offset)
        ensures
            o == (Offset { x: 0, y: 0 }),
    {
        Offset { x: 0, y: 0 }
    }
}

/// An axis-aligned rectangle `(x0, y0)..(x1, y1)` in device pixels.
///
/// `x0 <= x1` and `y0 <= y1` hold for every well-formed rectangle; layout is
/// strictly top-down, so a child never receives a larger rectangle than its
/// parent was given.
#[derive(Clone, Copy, PartialEq, Eq, Structural, Debug)]
pub struct Rect {
    pub x0: i32,
    pub y0: i32,
    pub x1: i32,
    pub y1: i32,
}

impl Rect {
    pub open spec fn wf(self) -> bool {
        &&& -COORD_LIMIT <= self.x0 <= self.x1 <= COORD_LIMIT
        &&& -COORD_LIMIT <= self.y0 <= self.y1 <= COORD_LIMIT
    }

    pub open spec fn spec_width(self) -> int {
        self.x1 - self.x0
    }

    pub open spec fn spec_height(self) -> int {
        self.y1 - self.y0
    }

    /// Whether `p` lies inside the rectangle; the right and bottom edges are
    /// exclusive.
    pub open spec fn spec_contains(self, p: Point) -> bool {
        self.x0 <= p.x < self.x1 && self.y0 <= p.y < self.y1
    }

    pub fn new(p0: Point, p1: Point) -> (r: Rect)
        ensures
            r == (Rect { x0: p0.x, y0: p0.y, x1: p1.x, y1: p1.y }),
    {
        Rect { x0: p0.x, y0: p0.y, x1: p1.x, y1: p1.y }
    }

    pub fn from_top_left_and_size(p: Point, size: Offset) -> (r: Rect)
        requires
            i32::MIN <= p.x + size.x <= i32::MAX,
            i32::MIN <= p.y + size.y <= i32::MAX,
        ensures
            r == (Rect { x0: p.x, y0: p.y, x1: (p.x + size.x) as i32, y1: (p.y + size.y) as i32 }),
    {
        Rect { x0: p.x, y0: p.y, x1: p.x + size.x, y1: p.y + size.y }
    }

    pub fn width(&self) -> (w: i32)
        requires
            self.wf(),
        ensures
            w == self.spec_width(),
    {
        self.x1 - self.x0
    }

    pub fn height(&self) -> (h: i32)
        requires
            self.wf(),
        ensures
            h == self.spec_height(),
    {
        self.y1 - self.y0
    }

    pub fn top_left(&self) -> (p: Point)
        ensures
            p == (Point { x: self.x0, y: self.y0 }),
    {
        Point { x: self.x0, y: self.y0 }
    }

    pub fn bottom_right(&self) -> (p: Point)
        ensures
            p == (Point { x: self.x1, y: self.y1 }),
    {
        Point { x: self.x1, y: self.y1 }
    }

    pub fn contains(&self, p: Point) -> (b: bool)
        ensures
            b == self.spec_contains(p),
    {
        self.x0 <= p.x && p.x < self.x1 && self.y0 <= p.y && p.y < self.y1
    }

    /// Split into a top and a bottom part. A non-negative `at` measures from
    /// the top edge, a negative `at` from the bottom edge.
    pub fn hsplit(self, at: i32) -> (r: (Rect, Rect))
        requires
            self.wf(),
            -self.spec_height() <= at <= self.spec_height(),
        ensures
            r.0.wf() && r.1.wf(),
            r.0 == (Rect { x0: self.x0, y0: self.y0, x1: self.x1, y1: self.spec_split_y(at) as i32 }),
            r.1 == (Rect { x0: self.x0, y0: self.spec_split_y(at) as i32, x1: self.x1, y1: self.y1 }),
    {
        let cut = if at >= 0 { self.y0 + at } else { self.y1 + at };
        let top = Rect { x0: self.x0, y0: self.y0, x1: self.x1, y1: cut };
        let bottom = Rect { x0: self.x0, y0: cut, x1: self.x1, y1: self.y1 };
        (top, bottom)
    }

    pub open spec fn spec_split_y(self, at: i32) -> int {
        if at >= 0 {
            self.y0 + at
        } else {
            self.y1 + at
        }
    }

    /// Split into a left and a right part. A non-negative `at` measures from
    /// the left edge, a negative `at` from the right edge.
    pub fn vsplit(self, at: i32) -> (r: (Rect, Rect))
        requires
            self.wf(),
            -self.spec_width() <= at <= self.spec_width(),
        ensures
            r.0.wf() && r.1.wf(),
            r.0 == (Rect { x0: self.x0, y0: self.y0, x1: self.spec_split_x(at) as i32, y1: self.y1 }),
            r.1 == (Rect { x0: self.spec_split_x(at) as i32, y0: self.y0, x1: self.x1, y1: self.y1 }),
    {
        let cut = if at >= 0 { self.x0 + at } else { self.x1 + at };
        let left = Rect { x0: self.x0, y0: self.y0, x1: cut, y1: self.y1 };
        let right = Rect { x0: cut, y0: self.y0, x1: self.x1, y1: self.y1 };
        (left, right)
    }

    pub open spec fn spec_split_x(self, at: i32) -> int {
        if at >= 0 {
            self.x0 + at
        } else {
            self.x1 + at
        }
    }
}

/// Divides a rectangle into `rows x cols` equally sized cells.
#[derive(Clone, Copy, PartialEq, Eq, Structural, Debug)]
pub struct Grid {
    pub area: Rect,
    pub rows: i32,
    pub cols: i32,
}

impl Grid {
    pub open spec fn wf(self) -> bool {
        &&& self.area.wf()
        &&& 1 <= self.rows
        &&& 1 <= self.cols
    }

    pub fn new(area: Rect, rows: i32, cols: i32) -> (g: Grid)
        ensures
            g == (Grid { area, rows, cols }),
    {
        Grid { area, rows, cols }
    }

    pub open spec fn spec_cell_width(self) -> int {
        self.area.spec_width() / self.cols as int
    }

    pub open spec fn spec_cell_height(self) -> int {
        self.area.spec_height() / self.rows as int
    }

    pub open spec fn spec_cell(self, row: i32, col: i32) -> Rect {
        Rect {
            x0: (self.area.x0 + col * self.spec_cell_width()) as i32,
            y0: (self.area.y0 + row * self.spec_cell_height()) as i32,
            x1: (self.area.x0 + col * self.spec_cell_width() + self.spec_cell_width()) as i32,
            y1: (self.area.y0 + row * self.spec_cell_height() + self.spec_cell_height()) as i32,
        }
    }

    /// The cell at `(row, col)`, counted from the top-left corner.
    pub fn row_col(&self, row: i32, col: i32) -> (r: Rect)
        requires
            self.wf(),
            0 <= row < self.rows,
            0 <= col < self.cols,
        ensures
            r == self.spec_cell(row, col),
            r.wf(),
    {
        proof {
            lemma_grid_cell_bounds(*self, row as int, col as int);
        }
        let w = (self.area.x1 - self.area.x0) / self.cols;
        let h = (self.area.y1 - self.area.y0) / self.rows;
        Rect { x0: self.area.x0 + col * w, y0: self.area.y0 + row * h, x1: self.area.x0 + col * w
            + w, y1: self.area.y0 + row * h + h }
    }
}

/// A grid cell lies inside the grid's own area: `col * w + w <= cols * w
/// <= width`, and likewise vertically.
proof fn lemma_grid_cell_bounds(g: Grid, row: int, col: int)
    requires
        g.wf(),
        0 <= row < g.rows,
        0 <= col < g.cols,
    ensures
        0 <= col * g.spec_cell_width(),
        col * g.spec_cell_width() + g.spec_cell_width() <= g.area.spec_width(),
        0 <= row * g.spec_cell_height(),
        row * g.spec_cell_height() + g.spec_cell_height() <= g.area.spec_height(),
{
    let w = g.spec_cell_width();
    let h = g.spec_cell_height();
    let cols = g.cols as int;
    let rows = g.rows as int;
    let width = g.area.spec_width();
    let height = g.area.spec_height();
    assert(0 <= w && w * cols <= width) by (nonlinear_arith)
        requires
            w == width / cols,
            0 <= width,
            1 <= cols,
    ;
    assert(0 <= h && h * rows <= height) by (nonlinear_arith)
        requires
            h == height / rows,
            0 <= height,
            1 <= rows,
    ;
    assert(0 <= col * w && col * w + w <= cols * w) by (nonlinear_arith)
        requires
            0 <= w,
            0 <= col,
            col + 1 <= cols,
    ;
    assert(0 <= row * h && row * h + h <= rows * h) by (nonlinear_arith)
        requires
            0 <= h,
            0 <= row,
            row + 1 <= rows,
    ;
}

} // verus!
