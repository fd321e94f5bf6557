use vstd::prelude::*;

use crate::board::{contains_point, Board};
use crate::model::{starting_board, BoardView};
use crate::pieces::{Kind, Piece};
use crate::{in_bounds, lemma_square_index_bounds, square_index};
use crate::{Color, Point};

verus! {

/// How a game ended.
#[derive(Clone, Copy, PartialEq, Eq, Structural, Debug)]
pub enum EndResult {
    Win(Color),
    Tie,
}

/// What a move attempt came to.
#[derive(Clone, Copy, PartialEq, Eq, Structural, Debug)]
pub enum TurnResult {
    /// The move was made; the other side is to move.
    Moved,
    /// The move was made and checks the other side, which is to move.
    Checked,
    /// The move was made and ended the game.
    GameEnd(EndResult),
    /// A pawn reached the last rank; the game waits for `promote`.
    Promotion,
    /// The attempt was refused; nothing changed.
    Failed,
}

/// A move as a player names it.
#[derive(Clone, Copy, PartialEq, Eq, Structural, Debug)]
pub enum Move {
    Standard(Point, Point),
    KingsideCastling,
    QueensideCastling,
    Promotion(Point, Point, Kind),
}

/// A match: the board, the side to move, and a pawn move awaiting its promotion.
pub struct Game {
    pub board: Board,
    pub color: Color,
    pub promotion: Option<(Point, Point)>,
}

/// A match as plain values.
pub struct GameView {
    pub board: BoardView,
    pub color: Color,
    pub promotion: Option<(Point, Point)>,
}

impl View for Game {
    type V = GameView;

    open spec fn view(&self) -> GameView {
        GameView { board: self.board@, color: self.color, promotion: self.promotion }
    }
}

/// The rank on which a pawn of `color` is promoted.
pub open spec fn last_rank(color: Color) -> i8 {
    if color == Color::White {
        8i8
    } else {
        1i8
    }
}

/// Whether a pawn may be promoted to `kind`.
pub open spec fn promotable(kind: Kind) -> bool {
    kind != Kind::King && kind != Kind::Pawn
}

/// After the side to move has moved: the state of the other side decides.
/// Checked with a move left: Checked; checked with none: the mover wins;
/// not checked with none: a tie; else Moved. The turn passes unless the game ended.
pub open spec fn settle(g: GameView) -> (GameView, TurnResult) {
    let opponent = g.color.opponent();
    let checked = g.board.in_check(opponent);
    let can_move = g.board.can_move(opponent);
    if checked && can_move {
        (GameView { color: opponent, ..g }, TurnResult::Checked)
    } else if checked {
        (g, TurnResult::GameEnd(EndResult::Win(g.color)))
    } else if !can_move {
        (g, TurnResult::GameEnd(EndResult::Tie))
    } else {
        (GameView { color: opponent, ..g }, TurnResult::Moved)
    }
}

/// The outcome of `turn(s, t)`: refused while a promotion is pending, when
/// no piece of the side to move stands on `s`, or when `t` is not among its
/// legal moves; a pawn reaching its last rank waits for its promotion;
/// otherwise the piece moves and the other side's state decides.
pub open spec fn turn_outcome(g: GameView, s: Point, t: Point) -> (GameView, TurnResult) {
    let piece = g.board.at(s)->0;
    if g.promotion is Some || !(g.board.at(s) is Some) || piece.color != g.color
        || !g.board.legal_moves(s).contains(t) {
        (g, TurnResult::Failed)
    } else if piece.kind == Kind::Pawn && t.1 == last_rank(g.color) {
        (GameView { promotion: Some((s, t)), ..g }, TurnResult::Promotion)
    } else if !g.board.can_relocate(s, t) {
        (g, TurnResult::Failed)
    } else {
        settle(GameView { board: g.board.after_move(s, t), ..g })
    }
}

/// The board with a fresh piece of `kind` for the side to move on `s`.
pub open spec fn with_promoted(g: GameView, s: Point, kind: Kind) -> BoardView {
    BoardView {
        grid: g.board.grid.update(
            square_index(s),
            Some(Piece { color: g.color, kind, has_moved: false }),
        ),
        ..g.board
    }
}

/// The outcome of `promote(kind)`: refused with no promotion pending or for
/// a king or a pawn; otherwise the pawn becomes a piece of `kind` that makes
/// the pending move, and the other side's state decides.
pub open spec fn promote_outcome(g: GameView, kind: Kind) -> (GameView, TurnResult) {
    match g.promotion {
        None => (g, TurnResult::Failed),
        Some(pending) => {
            let (s, t) = pending;
            let b = with_promoted(g, s, kind);
            if !promotable(kind) || !in_bounds(s) || !b.can_relocate(s, t) {
                (g, TurnResult::Failed)
            } else {
                settle(GameView { board: b.after_move(s, t), color: g.color, promotion: None })
            }
        },
    }
}

/// The outcome of a castling move of the side to move: its king moves `files` along its rank.
pub open spec fn castle_outcome(g: GameView, files: int) -> (GameView, TurnResult) {
    if g.board.has_king(g.color) {
        let k = g.board.king_square(g.color);
        turn_outcome(g, k, Point((k.0 + files) as i8, k.1))
    } else {
        (g, TurnResult::Failed)
    }
}

/// The outcome of `turn_from_move(m)`.
pub open spec fn move_outcome(g: GameView, m: Move) -> (GameView, TurnResult) {
    match m {
        Move::Standard(s, t) => turn_outcome(g, s, t),
        Move::KingsideCastling => castle_outcome(g, 2),
        Move::QueensideCastling => castle_outcome(g, -2),
        Move::Promotion(s, t, kind) => {
            let (g1, r) = turn_outcome(g, s, t);
            if r == TurnResult::Promotion {
                promote_outcome(g1, kind)
            } else {
                (g1, r)
            }
        },
    }
}

impl Game {
    /// A match in the standard starting position, White to move.
    pub fn new() -> (r: Game)
        ensures
            r@ == (GameView { board: starting_board(), color: Color::White, promotion: None }),
    {
        Game { board: Board::new(), color: Color::White, promotion: None }
    }

    /// Plays a move as a player names it: a castling move is the king of the
    /// side to move going two files; a promotion move is the pawn's move
    /// followed by its promotion.
    pub fn turn_from_move(&mut self, m: Move) -> (r: TurnResult)
        ensures
            (final(self)@, r) == move_outcome(old(self)@, m),
    {
        match m {
            Move::Standard(source, target) => self.turn(source, target),
            Move::KingsideCastling => match self.board.locate_king(&self.color) {
                Some(king) => self.turn(king, Point(king.0 + 2, king.1)),
                None => TurnResult::Failed,
            },
            Move::QueensideCastling => match self.board.locate_king(&self.color) {
                Some(king) => self.turn(king, Point(king.0 - 2, king.1)),
                None => TurnResult::Failed,
            },
            Move::Promotion(source, target, kind) => {
                let result = self.turn(source, target);
                if result == TurnResult::Promotion {
                    self.promote(kind)
                } else {
                    result
                }
            },
        }
    }

    /// Attempts to move the piece on `source` to `target` for the side to move.
    pub fn turn(&mut self, source: Point, target: Point) -> (r: TurnResult)
        ensures
            (final(self)@, r) == turn_outcome(old(self)@, source, target),
    {
        if self.promotion.is_some() {
            return TurnResult::Failed;
        }
        let moves = match self.get_moves(&source) {
            Some(m) => m,
            None => return TurnResult::Failed,
        };
        if !contains_point(&moves, &target) {
            return TurnResult::Failed;
        }
        let piece = match self.board.at_point(&source) {
            Some(p) => p,
            None => return TurnResult::Failed,
        };
        if piece.color != self.color {
            return TurnResult::Failed;
        }
        if piece.kind == Kind::Pawn {
            let last_row: i8 = match self.color {
                Color::White => 8,
                Color::Black => 1,
            };
            if target.1 == last_row {
                self.promotion = Some((source, target));
                return TurnResult::Promotion;
            }
        }
        if !self.board.move_piece(source, target) {
            return TurnResult::Failed;
        }
        self.conclude()
    }

    /// Evaluates the other side after a move and passes the turn unless the game ended.
    fn conclude(&mut self) -> (r: TurnResult)
        ensures
            (final(self)@, r) == settle(old(self)@),
    {
        let opponent = self.color.inverse();
        let opponent_can_move = self.color_can_move(&opponent);
        let opponent_is_checked = self.board.king_in_check(&opponent);
        if opponent_is_checked && opponent_can_move {
            self.color = opponent;
            TurnResult::Checked
        } else if opponent_is_checked {
            TurnResult::GameEnd(EndResult::Win(self.color))
        } else if !opponent_can_move {
            TurnResult::GameEnd(EndResult::Tie)
        } else {
            self.color = opponent;
            TurnResult::Moved
        }
    }

    /// Resolves a pending promotion with a piece of `kind`, which then makes
    /// the pending move.
    pub fn promote(&mut self, kind: Kind) -> (r: TurnResult)
        ensures
            (final(self)@, r) == promote_outcome(old(self)@, kind),
    {
        let (source, target) = match self.promotion {
            Some(points) => points,
            None => return TurnResult::Failed,
        };
        if kind == Kind::King || kind == Kind::Pawn || !self.board.is_in_bounds(&source) {
            return TurnResult::Failed;
        }
        let saved = self.board.current;
        proof {
            lemma_square_index_bounds(source);
        }
        self.board.current[source.index()] = Some(Piece::new(self.color, kind));
        assert(self.board@ == with_promoted(old(self)@, source, kind));
        if !self.board.move_piece(source, target) {
            self.board.current = saved;
            return TurnResult::Failed;
        }
        self.promotion = None;
        self.conclude()
    }

    /// The board.
    pub fn get_board(&self) -> (r: &Board)
        ensures
            *r == self.board,
    {
        &self.board
    }

    /// The legal moves of the piece on `source`: `None` when a piece of the
    /// side not to move stands there, or when there are none.
    pub fn get_moves(&mut self, source: &Point) -> (r: Option<Vec<Point>>)
        ensures
            *final(self) == *old(self),
            r is Some <== !(old(self)@.board.at(*source) matches Some(p) && p.color != old(self).color)
                && old(self)@.board.legal_moves(*source).len() > 0,
            r is Some ==> r->0@ == old(self)@.board.legal_moves(*source)
                && r->0@.len() > 0,
            r is Some ==> !(old(self)@.board.at(*source) matches Some(p) && p.color != old(self).color),
    {
        match self.board.at_point(source) {
            Some(piece) => {
                if piece.color != self.color {
                    return None;
                }
            },
            None => {},
        }
        let moves = self.board.get_allowed_moves(source);
        if moves.len() == 0 {
            None
        } else {
            Some(moves)
        }
    }

    /// Whether some piece of `color` has a legal move.
    fn color_can_move(&mut self, color: &Color) -> (r: bool)
        ensures
            *final(self) == *old(self),
            r == old(self)@.board.can_move(*color),
    {
        let ghost start = *self;
        let mut i: usize = 0;
        while i < 64
            invariant
                *self == start,
                start == *old(self),
                i <= 64,
                forall|j: int| 0 <= j < i ==> !start@.board.has_legal_move(#[trigger] crate::square_at(j), *color),
            decreases 64 - i,
        {
            let point = Board::square(i);
            match self.board.at_point(&point) {
                Some(piece) => {
                    if piece.color == *color {
                        let moves = self.board.get_allowed_moves(&point);
                        if moves.len() > 0 {
                            assert(start@.board.has_legal_move(crate::square_at(i as int), *color));
                            return true;
                        }
                    }
                },
                None => {},
            }
            i = i + 1;
        }
        false
    }
}


/// A refused attempt changes nothing, so submitting it again is refused again.
pub proof fn lemma_rejection_is_idempotent(g: GameView, s: Point, t: Point)
    requires
        turn_outcome(g, s, t).1 == TurnResult::Failed,
    ensures
        turn_outcome(g, s, t).0 == g,
        turn_outcome(turn_outcome(g, s, t).0, s, t) == (g, TurnResult::Failed),
{
}

/// A move that is made and does not end the game passes the turn; a refused
/// attempt, a pending promotion and the end of the game leave it where it was.
pub proof fn lemma_turns_alternate(g: GameView, s: Point, t: Point, kind: Kind)
    ensures
        turn_outcome(g, s, t).1 == TurnResult::Moved || turn_outcome(g, s, t).1
            == TurnResult::Checked ==> turn_outcome(g, s, t).0.color == g.color.opponent(),
        turn_outcome(g, s, t).1 == TurnResult::Failed ==> turn_outcome(g, s, t).0 == g,
        turn_outcome(g, s, t).1 == TurnResult::Promotion || turn_outcome(g, s, t).1 is GameEnd
            ==> turn_outcome(g, s, t).0.color == g.color,
        promote_outcome(g, kind).1 == TurnResult::Moved || promote_outcome(g, kind).1
            == TurnResult::Checked ==> promote_outcome(g, kind).0.color == g.color.opponent(),
        promote_outcome(g, kind).1 == TurnResult::Failed ==> promote_outcome(g, kind).0 == g,
{
}

/// A pawn move that reaches the last rank waits with the side to move and the
/// board unchanged; promoting it to a queen, rook, bishop or knight then
/// succeeds, puts that piece of the mover's side on the target square and
/// clears the pending promotion.
pub proof fn lemma_promotion_round_trip(g: GameView, s: Point, t: Point, kind: Kind)
    requires
        g.board.grid.len() == 64,
        turn_outcome(g, s, t).1 == TurnResult::Promotion,
        promotable(kind),
    ensures
        turn_outcome(g, s, t).0 == (GameView { promotion: Some((s, t)), ..g }),
        promote_outcome(turn_outcome(g, s, t).0, kind).1 != TurnResult::Failed,
        promote_outcome(turn_outcome(g, s, t).0, kind).1 != TurnResult::Promotion,
        promote_outcome(turn_outcome(g, s, t).0, kind).0.promotion is None,
        promote_outcome(turn_outcome(g, s, t).0, kind).0.board.at(t) == Some(
            Piece { color: g.color, kind, has_moved: true },
        ),
{
    let g1 = turn_outcome(g, s, t).0;
    crate::facts::lemma_legal_moves_exclude_self_check(g.board, s, t);
    crate::facts::lemma_pawn_targets(g.board, s, t);
    let b = with_promoted(g1, s, kind);
    lemma_square_index_bounds(s);
    lemma_square_index_bounds(t);
    crate::facts::lemma_square_index_injective(s, t);
    assert(b.at(s) == Some(Piece { color: g.color, kind, has_moved: false }));
    assert(b.at(t) == g.board.at(t));
    assert(b.can_relocate(s, t));
    assert(b.after_move(s, t).at(t) == Some(Piece { color: g.color, kind, has_moved: true }));
}


/// A move the game makes never leaves the mover's own king attacked.
pub proof fn lemma_move_leaves_mover_safe(g: GameView, s: Point, t: Point)
    requires
        turn_outcome(g, s, t).1 != TurnResult::Failed,
        turn_outcome(g, s, t).1 != TurnResult::Promotion,
    ensures
        !turn_outcome(g, s, t).0.board.in_check(g.color),
{
    crate::facts::lemma_legal_move_is_safe(g.board, s, t);
}

} // verus!
