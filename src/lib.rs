use vstd::prelude::*;

pub mod board;
pub mod game;
pub mod facts;
pub mod model;
pub mod pieces;
pub mod position;

verus! {

/// A square of the board, as (file, rank). On the board both lie in 1..=8.
#[derive(Clone, Copy, PartialEq, Eq, Structural, Hash, PartialOrd, Ord, Debug)]
pub struct Point(pub i8, pub i8);

/// Whether `p` lies on the 8 x 8 board.
pub open spec fn in_bounds(p: Point) -> bool {
    1 <= p.0 <= 8 && 1 <= p.1 <= 8
}

/// The place of an on-board square in the 64-entry grid, rank by rank.
pub open spec fn square_index(p: Point) -> int {
    (p.1 - 1) * 8 + (p.0 - 1)
}

/// The square stored at place `i` of the grid; the inverse of `square_index`.
pub open spec fn square_at(i: int) -> Point {
    Point((i % 8 + 1) as i8, (i / 8 + 1) as i8)
}

/// The vector sum of two points.
pub open spec fn plus(a: Point, b: Point) -> Point {
    Point((a.0 + b.0) as i8, (a.1 + b.1) as i8)
}

/// Whether the vector sum of `a` and `b` fits in the coordinate type.
pub open spec fn sum_fits(a: Point, b: Point) -> bool {
    i8::MIN <= a.0 + b.0 <= i8::MAX && i8::MIN <= a.1 + b.1 <= i8::MAX
}

pub proof fn lemma_square_index_bounds(p: Point)
    requires
        in_bounds(p),
    ensures
        0 <= square_index(p) < 64,
        square_at(square_index(p)) == p,
{
}

pub proof fn lemma_square_at(i: int)
    requires
        0 <= i < 64,
    ensures
        in_bounds(square_at(i)),
        square_index(square_at(i)) == i,
{
}

/// The unit step that leads from `a` towards `b` along a rank, a file or a
/// diagonal; `None` when `b` is `a` or lies on none of these lines.
pub open spec fn direction_between(a: Point, b: Point) -> Option<Point> {
    let dx = b.0 - a.0;
    let dy = b.1 - a.1;
    if dx == 0 && dy == 0 {
        None
    } else if dx == 0 {
        Some(Point(0i8, if dy > 0 { 1i8 } else { -1i8 }))
    } else if dy == 0 {
        Some(Point(if dx > 0 { 1i8 } else { -1i8 }, 0i8))
    } else if dx == dy {
        if dx > 0 { Some(Point(1i8, 1i8)) } else { Some(Point(-1i8, -1i8)) }
    } else if dx == -dy {
        if dx > 0 { Some(Point(1i8, -1i8)) } else { Some(Point(-1i8, 1i8)) }
    } else {
        None
    }
}

impl Point {
    /// Vector addition.
    pub fn add(&self, other: &Point) -> (r: Point)
        requires
            sum_fits(*self, *other),
        ensures
            r == plus(*self, *other),
    {
        Point(self.0 + other.0, self.1 + other.1)
    }

    /// The unit step from this point towards `other` along a rank, a file
    /// or a diagonal, if they share one.
    pub fn relative_direction(&self, other: &Point) -> (r: Option<Point>)
        ensures
            r == direction_between(*self, *other),
    {
        let dx: i16 = other.0 as i16 - self.0 as i16;
        let dy: i16 = other.1 as i16 - self.1 as i16;
        if dx == 0 {
            if dy > 0 {
                Some(Point(0, 1))
            } else if dy < 0 {
                Some(Point(0, -1))
            } else {
                None
            }
        } else if dy == 0 {
            if dx > 0 {
                Some(Point(1, 0))
            } else {
                Some(Point(-1, 0))
            }
        } else if dx == dy {
            if dx > 0 {
                Some(Point(1, 1))
            } else {
                Some(Point(-1, -1))
            }
        } else if dx == -dy {
            if dx > 0 {
                Some(Point(1, -1))
            } else {
                Some(Point(-1, 1))
            }
        } else {
            None
        }
    }

    /// The place of this on-board square in the grid.
    pub fn index(&self) -> (r: usize)
        requires
            in_bounds(*self),
        ensures
            r == square_index(*self),
    {
        ((self.1 - 1) * 8 + (self.0 - 1)) as usize
    }
}

/// The side a piece belongs to.
#[derive(Clone, Copy, PartialEq, Eq, Structural, Hash, Debug)]
pub enum Color {
    White,
    Black,
}

impl Color {
    pub open spec fn opponent(self) -> Color {
        match self {
            Color::White => Color::Black,
            Color::Black => Color::White,
        }
    }

    /// The other side.
    pub fn inverse(&self) -> (r: Color)
        ensures
            r == self.opponent(),
    {
        match self {
            Color::White => Color::Black,
            Color::Black => Color::White,
        }
    }

    /// 0 for White, 1 for Black.
    pub fn get_index(&self) -> (r: usize)
        ensures
            r == (if *self == Color::White { 0usize } else { 1usize }),
    {
        match self {
            Color::White => 0,
            Color::Black => 1,
        }
    }
}

} // verus!
