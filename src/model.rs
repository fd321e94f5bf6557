use vstd::prelude::*;

use crate::pieces::{rules, DirectionalMove, Kind, Piece};
use crate::{in_bounds, plus, square_at, square_index};
use crate::{Color, Point};

verus! {

/// The rank direction in which pawns of `color` advance.
pub open spec fn forward(color: Color) -> i8 {
    if color == Color::White { 1i8 } else { -1i8 }
}

/// Whether every component of a rule's direction lies in -2..=2.
pub open spec fn short_direction(d: Point) -> bool {
    -2 <= d.0 <= 2 && -2 <= d.1 <= 2
}

/// The position and the state that goes with it, as plain values.
pub struct BoardView {
    /// What stands on each of the 64 squares, by `square_index`.
    pub grid: Seq<Option<Piece>>,
    /// The captured pieces of each side, in order of capture.
    pub graveyard: Map<Color, Seq<Piece>>,
    /// After a pawn's double step: the square it skipped and the square it landed on.
    pub enpassant: Option<(Point, Point)>,
}

/// Every rule's direction is short.
pub proof fn lemma_rules_short(kind: Kind)
    ensures
        forall|j: int| 0 <= j < rules(kind).len() ==> short_direction(#[trigger] rules(kind)[j].0),
{
}

/// Whether `x` lies strictly between `a` and `b`.
pub open spec fn strictly_between(x: int, a: int, b: int) -> bool {
    (a < x < b) || (b < x < a)
}

/// The corner whose rook takes part when the king castles from `s` to `t`.
pub open spec fn rook_corner(s: Point, t: Point) -> Point {
    if t.0 > s.0 {
        Point(8i8, s.1)
    } else {
        Point(1i8, s.1)
    }
}

/// Where that rook lands: on the square the king passed over.
pub open spec fn rook_landing(s: Point, t: Point) -> Point {
    if t.0 > s.0 {
        Point((s.0 + 1) as i8, s.1)
    } else {
        Point((s.0 - 1) as i8, s.1)
    }
}

/// `g` with `q` appended to the captured pieces of its side.
pub open spec fn bury(g: Map<Color, Seq<Piece>>, q: Piece) -> Map<Color, Seq<Piece>> {
    g.insert(
        q.color,
        if g.contains_key(q.color) {
            g[q.color].push(q)
        } else {
            seq![q]
        },
    )
}

/// All squares, in grid order.
pub open spec fn all_squares() -> Seq<Point> {
    Seq::new(64, |i: int| square_at(i))
}

/// Filtering a prefix one element longer adds at most that element.
pub proof fn lemma_filter_take_step<A>(s: Seq<A>, pred: spec_fn(A) -> bool, i: int)
    requires
        0 <= i < s.len(),
    ensures
        s.take(i + 1).filter(pred) == (if pred(s[i]) {
            s.take(i).filter(pred).push(s[i])
        } else {
            s.take(i).filter(pred)
        }),
{
    reveal(Seq::filter);
    assert(s.take(i + 1).drop_last() =~= s.take(i));
}

/// Two places that both hold the first king of a side are the same.
pub proof fn lemma_first_king_unique(b: BoardView, c: Color, i: int, j: int)
    requires
        b.first_king(c, i),
        b.first_king(c, j),
    ensures
        i == j,
{
    if i < j {
        assert(!b.is_king_of(square_at(i), c));
    } else if j < i {
        assert(!b.is_king_of(square_at(j), c));
    }
}

impl BoardView {
    /// What stands on `p`; nothing off the board.
    pub open spec fn at(self, p: Point) -> Option<Piece> {
        if in_bounds(p) {
            self.grid[square_index(p)]
        } else {
            None
        }
    }

    /// The squares that a piece of `color` reaches along `d`, from `cur` on,
    /// within `fuel` more steps: empty squares, up to and including the first
    /// occupied one if it holds an opposing piece. Only sliding rules go past
    /// the first step. No walk across an 8-square board is longer than 7 steps.
    pub open spec fn ray(self, cur: Point, d: Point, slides: bool, color: Color, fuel: nat) -> Seq<
        Point,
    >
        decreases fuel,
    {
        if fuel == 0 || !in_bounds(cur) {
            seq![]
        } else {
            match self.at(cur) {
                Some(q) => if q.color != color {
                    seq![cur]
                } else {
                    seq![]
                },
                None => if slides {
                    seq![cur] + self.ray(plus(cur, d), d, slides, color, (fuel - 1) as nat)
                } else {
                    seq![cur]
                },
            }
        }
    }

    /// The squares reached from `s` by a piece of `color` following the rules `rs` in order.
    pub open spec fn rule_moves(self, s: Point, color: Color, rs: Seq<DirectionalMove>) -> Seq<
        Point,
    >
        decreases rs.len(),
    {
        if rs.len() == 0 {
            seq![]
        } else {
            self.rule_moves(s, color, rs.drop_last()) + self.ray(
                plus(s, rs.last().0),
                rs.last().0,
                rs.last().1,
                color,
                7,
            )
        }
    }

    /// En passant: the pawn at `s` lands on `t`, the empty square that the
    /// marker records as skipped, while an opposing pawn stands on the square
    /// the marker records as landed on; that pawn is taken.
    pub open spec fn is_en_passant(self, s: Point, t: Point) -> bool {
        match (self.at(s), self.enpassant) {
            (Some(p), Some(marker)) => {
                &&& p.kind == Kind::Pawn
                &&& t == marker.0
                &&& in_bounds(t)
                &&& self.at(t) is None
                &&& self.at(marker.1) matches Some(q) && q.kind == Kind::Pawn && q.color != p.color
            },
            _ => false,
        }
    }

    /// Whether a pawn of `color` at `s` may move diagonally onto `t`: to take
    /// an opposing piece there, or to take en passant on the skipped square.
    pub open spec fn pawn_takes(self, s: Point, color: Color, t: Point) -> bool {
        in_bounds(t) && match self.at(t) {
            Some(q) => q.color != color,
            None => self.is_en_passant(s, t),
        }
    }

    /// The squares a pawn `p` at `s` may move to, ignoring the safety of its king:
    /// one step forward onto an empty square, the two forward diagonals where it
    /// takes, and two steps forward from its start over two empty squares.
    pub open spec fn pawn_moves(self, s: Point, p: Piece) -> Seq<Point> {
        let dir = forward(p.color);
        let one = Point(s.0, (s.1 + dir) as i8);
        let two = Point(s.0, (s.1 + 2 * dir) as i8);
        let right = Point((s.0 + 1) as i8, (s.1 + dir) as i8);
        let left = Point((s.0 - 1) as i8, (s.1 + dir) as i8);
        (if in_bounds(one) && self.at(one) is None {
            seq![one]
        } else {
            seq![]
        }) + (if self.pawn_takes(s, p.color, right) {
            seq![right]
        } else {
            seq![]
        }) + (if self.pawn_takes(s, p.color, left) {
            seq![left]
        } else {
            seq![]
        }) + (if !p.has_moved && in_bounds(one) && self.at(one) is None && in_bounds(two)
            && self.at(two) is None {
            seq![two]
        } else {
            seq![]
        })
    }

    /// The king at `s` moves two files along its rank: castling.
    pub open spec fn is_castling(self, s: Point, t: Point) -> bool {
        &&& self.at(s) matches Some(k) && k.kind == Kind::King
        &&& t.1 == s.1
        &&& (t.0 - s.0 == 2 || s.0 - t.0 == 2)
    }

    /// Castling is allowed: neither the king nor the rook in the corner on
    /// that side has moved, and no piece stands between them.
    pub open spec fn castling_clear(self, s: Point, t: Point) -> bool {
        let king = self.at(s)->0;
        let corner = rook_corner(s, t);
        &&& self.at(s) is Some
        &&& !king.has_moved
        &&& self.at(corner) matches Some(r) && r.kind == Kind::Rook && r.color == king.color
            && !r.has_moved
        &&& forall|x: int|
            strictly_between(x, s.0 as int, corner.0 as int) ==> #[trigger] self.at(
                Point(x as i8, s.1),
            ) is None
    }

    /// A pawn that has not moved steps two ranks forward.
    pub open spec fn is_double_step(self, s: Point, t: Point) -> bool {
        &&& self.at(s) matches Some(p) && p.kind == Kind::Pawn && !p.has_moved
            && t.1 == s.1 + 2 * forward(p.color)
        &&& t.0 == s.0
    }

    /// Whether `move_piece(s, t)` is carried out: `t` is on the board and is
    /// not `s`, a piece stands on `s`, none of its own side on `t`, and a
    /// castling move is clear.
    pub open spec fn can_relocate(self, s: Point, t: Point) -> bool {
        &&& in_bounds(t)
        &&& s != t
        &&& self.at(s) is Some
        &&& !(self.at(t) matches Some(q) && q.color == self.at(s)->0.color)
        &&& self.is_castling(s, t) ==> self.castling_clear(s, t)
    }

    /// The squares after the piece on `s` moved to `t`, marked as moved: the
    /// pawn taken en passant is gone, and a castling rook stands beside the king.
    pub open spec fn moved_grid(self, s: Point, t: Point) -> Seq<Option<Piece>> {
        let p = self.at(s)->0;
        let g = self.grid.update(square_index(t), Some(Piece { has_moved: true, ..p })).update(
            square_index(s),
            None,
        );
        if self.is_en_passant(s, t) {
            g.update(square_index((self.enpassant->0).1), None)
        } else if self.is_castling(s, t) {
            let rook = self.at(rook_corner(s, t))->0;
            g.update(square_index(rook_corner(s, t)), None).update(
                square_index(rook_landing(s, t)),
                Some(Piece { has_moved: true, ..rook }),
            )
        } else {
            g
        }
    }

    /// The graveyard after the move: the piece taken on `t`, or en passant, is appended.
    pub open spec fn moved_graveyard(self, s: Point, t: Point) -> Map<Color, Seq<Piece>> {
        if self.at(t) is Some {
            bury(self.graveyard, self.at(t)->0)
        } else if self.is_en_passant(s, t) {
            bury(self.graveyard, self.at((self.enpassant->0).1)->0)
        } else {
            self.graveyard
        }
    }

    /// The board after `move_piece(s, t)` was carried out.
    pub open spec fn after_move(self, s: Point, t: Point) -> BoardView {
        BoardView {
            grid: self.moved_grid(s, t),
            graveyard: self.moved_graveyard(s, t),
            enpassant: if self.is_double_step(s, t) {
                Some((Point(s.0, (s.1 + forward(self.at(s)->0.color)) as i8), t))
            } else {
                None
            },
        }
    }

    /// The pseudo-legal moves of the piece at `s`, in generation order:
    /// the king's safety is not considered.
    pub open spec fn pseudo_moves(self, s: Point) -> Seq<Point> {
        match self.at(s) {
            None => seq![],
            Some(p) => if p.kind == Kind::Pawn {
                self.pawn_moves(s, p)
            } else {
                self.rule_moves(s, p.color, rules(p.kind))
            },
        }
    }

    /// A king of `c` stands on `q`.
    pub open spec fn is_king_of(self, q: Point, c: Color) -> bool {
        self.at(q) matches Some(p) && p.kind == Kind::King && p.color == c
    }

    /// `c` has a king on the board.
    pub open spec fn has_king(self, c: Color) -> bool {
        exists|i: int| 0 <= i < 64 && self.is_king_of(#[trigger] square_at(i), c)
    }

    /// Place `i` holds the first king of `c` in grid order.
    pub open spec fn first_king(self, c: Color, i: int) -> bool {
        &&& 0 <= i < 64
        &&& self.is_king_of(square_at(i), c)
        &&& forall|j: int| 0 <= j < i ==> !self.is_king_of(#[trigger] square_at(j), c)
    }

    /// The square of `c`'s king (the first in grid order, should there be more).
    pub open spec fn king_square(self, c: Color) -> Point {
        square_at(choose|i: int| self.first_king(c, i))
    }

    /// An opposing piece of `c` stands on `q` and can move to `target`.
    pub open spec fn attacks(self, q: Point, target: Point, c: Color) -> bool {
        &&& self.at(q) matches Some(p) && p.color == c.opponent()
        &&& self.pseudo_moves(q).contains(target)
    }

    /// The squares, in grid order, of the opposing pieces of `c` that can move to `target`.
    pub open spec fn attackers(self, target: Point, c: Color) -> Seq<Point> {
        all_squares().filter(|q: Point| self.attacks(q, target, c))
    }

    /// `c`'s king is attacked.
    pub open spec fn in_check(self, c: Color) -> bool {
        self.has_king(c) && self.attackers(self.king_square(c), c).len() > 0
    }

    /// The position, with the other state unchanged, after the piece on `s`
    /// was moved to `t` as `move_piece` would move it.
    pub open spec fn trial(self, s: Point, t: Point) -> BoardView {
        BoardView {
            grid: if self.can_relocate(s, t) {
                self.moved_grid(s, t)
            } else {
                self.grid
            },
            ..self
        }
    }

    /// Moving the piece on `s` to `t` leaves its own king unattacked.
    pub open spec fn keeps_king_safe(self, s: Point, t: Point) -> bool {
        !self.trial(s, t).in_check(self.at(s)->0.color)
    }

    /// The king on `s` may castle to `t`: the move is clear, the king is not
    /// in check, and it neither passes over nor lands on an attacked square.
    pub open spec fn castle_allowed(self, s: Point, t: Point) -> bool {
        let c = self.at(s)->0.color;
        &&& self.is_castling(s, t)
        &&& self.can_relocate(s, t)
        &&& !self.in_check(c)
        &&& !self.trial(s, rook_landing(s, t)).in_check(c)
        &&& !self.trial(s, t).in_check(c)
    }

    /// The castling moves of the piece on `s`: kingside first, then queenside.
    pub open spec fn castle_moves(self, s: Point) -> Seq<Point> {
        let kingside = Point((s.0 + 2) as i8, s.1);
        let queenside = Point((s.0 - 2) as i8, s.1);
        (if self.castle_allowed(s, kingside) {
            seq![kingside]
        } else {
            seq![]
        }) + (if self.castle_allowed(s, queenside) {
            seq![queenside]
        } else {
            seq![]
        })
    }

    /// The legal moves of the piece on `s`: its pseudo-legal moves that leave
    /// its own king unattacked, in generation order, then a king's castling moves.
    pub open spec fn legal_moves(self, s: Point) -> Seq<Point> {
        self.pseudo_moves(s).filter(|t: Point| self.keeps_king_safe(s, t)) + self.castle_moves(s)
    }

    /// A piece of `c` stands on `q` and has a legal move.
    pub open spec fn has_legal_move(self, q: Point, c: Color) -> bool {
        &&& self.at(q) matches Some(p) && p.color == c
        &&& self.legal_moves(q).len() > 0
    }

    /// Some piece of `c` has a legal move.
    pub open spec fn can_move(self, c: Color) -> bool {
        exists|i: int| 0 <= i < 64 && self.has_legal_move(#[trigger] square_at(i), c)
    }
}

/// The kind of piece that starts on `file` of a back rank.
pub open spec fn back_rank_kind(file: int) -> Kind {
    if file == 1 || file == 8 {
        Kind::Rook
    } else if file == 2 || file == 7 {
        Kind::Knight
    } else if file == 3 || file == 6 {
        Kind::Bishop
    } else if file == 4 {
        Kind::Queen
    } else {
        Kind::King
    }
}

/// What stands on `p` in the standard starting position.
pub open spec fn starting_piece(p: Point) -> Option<Piece> {
    if p.1 == 1 {
        Some(Piece { color: Color::White, kind: back_rank_kind(p.0 as int), has_moved: false })
    } else if p.1 == 2 {
        Some(Piece { color: Color::White, kind: Kind::Pawn, has_moved: false })
    } else if p.1 == 7 {
        Some(Piece { color: Color::Black, kind: Kind::Pawn, has_moved: false })
    } else if p.1 == 8 {
        Some(Piece { color: Color::Black, kind: back_rank_kind(p.0 as int), has_moved: false })
    } else {
        None
    }
}

/// A graveyard with an empty entry for each side.
pub open spec fn fresh_graveyard() -> Map<Color, Seq<Piece>> {
    map![Color::White => Seq::<Piece>::empty(), Color::Black => Seq::<Piece>::empty()]
}

/// The standard starting position, nothing captured, no en passant marker.
pub open spec fn starting_board() -> BoardView {
    BoardView {
        grid: Seq::new(64, |i: int| starting_piece(square_at(i))),
        graveyard: fresh_graveyard(),
        enpassant: None,
    }
}

/// The squares after placing each piece of `ps` on its square in turn.
pub open spec fn placed(ps: Seq<(Point, Piece)>) -> Seq<Option<Piece>>
    decreases ps.len(),
{
    if ps.len() == 0 {
        Seq::new(64, |i: int| None)
    } else {
        placed(ps.drop_last()).update(square_index(ps.last().0), Some(ps.last().1))
    }
}

} // verus!
