use vstd::prelude::*;

use crate::{Color, Point};

verus! {

/// The kind of a chess piece.
#[derive(Clone, Copy, PartialEq, Eq, Structural, Debug)]
pub enum Kind {
    King,
    Queen,
    Bishop,
    Knight,
    Rook,
    Pawn,
}

/// A piece on the board: its side, its kind, and whether it has moved yet.
#[derive(Clone, Copy, PartialEq, Eq, Structural, Debug)]
pub struct Piece {
    pub color: Color,
    pub kind: Kind,
    pub has_moved: bool,
}

/// One movement rule: a direction, and whether the piece may keep going
/// along it (a sliding piece) or takes a single step.
#[derive(Clone, Copy, PartialEq, Eq, Structural, Debug)]
pub struct DirectionalMove(pub Point, pub bool);

/// The movement rules of each kind. Pawns move by rules of their own.
pub open spec fn rules(kind: Kind) -> Seq<DirectionalMove> {
    match kind {
        Kind::King => seq![
            DirectionalMove(Point(-1i8, 1i8), false),
            DirectionalMove(Point(0i8, 1i8), false),
            DirectionalMove(Point(1i8, 1i8), false),
            DirectionalMove(Point(-1i8, 0i8), false),
            DirectionalMove(Point(1i8, 0i8), false),
            DirectionalMove(Point(-1i8, -1i8), false),
            DirectionalMove(Point(0i8, -1i8), false),
            DirectionalMove(Point(1i8, -1i8), false),
        ],
        Kind::Queen => seq![
            DirectionalMove(Point(-1i8, 1i8), true),
            DirectionalMove(Point(0i8, 1i8), true),
            DirectionalMove(Point(1i8, 1i8), true),
            DirectionalMove(Point(-1i8, 0i8), true),
            DirectionalMove(Point(1i8, 0i8), true),
            DirectionalMove(Point(-1i8, -1i8), true),
            DirectionalMove(Point(0i8, -1i8), true),
            DirectionalMove(Point(1i8, -1i8), true),
        ],
        Kind::Bishop => seq![
            DirectionalMove(Point(-1i8, 1i8), true),
            DirectionalMove(Point(1i8, 1i8), true),
            DirectionalMove(Point(-1i8, -1i8), true),
            DirectionalMove(Point(1i8, -1i8), true),
        ],
        Kind::Knight => seq![
            DirectionalMove(Point(-2i8, 1i8), false),
            DirectionalMove(Point(-1i8, 2i8), false),
            DirectionalMove(Point(1i8, 2i8), false),
            DirectionalMove(Point(2i8, 1i8), false),
            DirectionalMove(Point(-2i8, -1i8), false),
            DirectionalMove(Point(-1i8, -2i8), false),
            DirectionalMove(Point(1i8, -2i8), false),
            DirectionalMove(Point(2i8, -1i8), false),
        ],
        Kind::Rook => seq![
            DirectionalMove(Point(0i8, 1i8), true),
            DirectionalMove(Point(-1i8, 0i8), true),
            DirectionalMove(Point(1i8, 0i8), true),
            DirectionalMove(Point(0i8, -1i8), true),
        ],
        Kind::Pawn => seq![],
    }
}

impl Piece {
    /// A piece that has not moved yet.
    pub fn new(color: Color, kind: Kind) -> (r: Piece)
        ensures
            r == (Piece { color, kind, has_moved: false }),
    {
        Piece { color, kind, has_moved: false }
    }

    /// The movement rules of this piece's kind.
    pub fn get_moves(&self) -> (r: Vec<DirectionalMove>)
        ensures
            r@ == rules(self.kind),
    {
        match self.kind {
            Kind::King => vec![
                DirectionalMove(Point(-1, 1), false),
                DirectionalMove(Point(0, 1), false),
                DirectionalMove(Point(1, 1), false),
                DirectionalMove(Point(-1, 0), false),
                DirectionalMove(Point(1, 0), false),
                DirectionalMove(Point(-1, -1), false),
                DirectionalMove(Point(0, -1), false),
                DirectionalMove(Point(1, -1), false),
            ],
            Kind::Queen => vec![
                DirectionalMove(Point(-1, 1), true),
                DirectionalMove(Point(0, 1), true),
                DirectionalMove(Point(1, 1), true),
                DirectionalMove(Point(-1, 0), true),
                DirectionalMove(Point(1, 0), true),
                DirectionalMove(Point(-1, -1), true),
                DirectionalMove(Point(0, -1), true),
                DirectionalMove(Point(1, -1), true),
            ],
            Kind::Bishop => vec![
                DirectionalMove(Point(-1, 1), true),
                DirectionalMove(Point(1, 1), true),
                DirectionalMove(Point(-1, -1), true),
                DirectionalMove(Point(1, -1), true),
            ],
            Kind::Knight => vec![
                DirectionalMove(Point(-2, 1), false),
                DirectionalMove(Point(-1, 2), false),
                DirectionalMove(Point(1, 2), false),
                DirectionalMove(Point(2, 1), false),
                DirectionalMove(Point(-2, -1), false),
                DirectionalMove(Point(-1, -2), false),
                DirectionalMove(Point(1, -2), false),
                DirectionalMove(Point(2, -1), false),
            ],
            Kind::Rook => vec![
                DirectionalMove(Point(0, 1), true),
                DirectionalMove(Point(-1, 0), true),
                DirectionalMove(Point(1, 0), true),
                DirectionalMove(Point(0, -1), true),
            ],
            Kind::Pawn => vec![],
        }
    }
}

} // verus!
