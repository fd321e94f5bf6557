use vstd::prelude::*;

use crate::model::{
    all_squares, back_rank_kind, bury, fresh_graveyard, lemma_filter_take_step,
    lemma_first_king_unique, lemma_rules_short, placed, rook_corner, short_direction,
    starting_board, starting_piece, strictly_between, BoardView,
};
use crate::pieces::{rules, DirectionalMove, Kind, Piece};
use crate::{in_bounds, lemma_square_at, lemma_square_index_bounds, plus, square_at};
use crate::{Color, Point};

verus! {

/// The board: 64 squares, the captured pieces, and the en passant marker.
pub struct Board {
    pub current: [Option<Piece>; 64],
    pub graveyard: Graveyard,
    pub enpassant: Option<[Point; 2]>,
}

/// The captured pieces, per side. A side has an entry once something of it
/// was captured, or from the start when the board was set up with one.
pub struct Graveyard {
    pub white: Option<Vec<Piece>>,
    pub black: Option<Vec<Piece>>,
}

/// The kind of piece that starts on `file` of a back rank.
fn back_rank_kind_on(file: i8) -> (r: Kind)
    ensures
        r == back_rank_kind(file as int),
{
    if file == 1 || file == 8 {
        Kind::Rook
    } else if file == 2 || file == 7 {
        Kind::Knight
    } else if file == 3 || file == 6 {
        Kind::Bishop
    } else if file == 4 {
        Kind::Queen
    } else {
        Kind::King
    }
}

/// What stands on `p` in the standard starting position.
fn starting_piece_on(p: &Point) -> (r: Option<Piece>)
    ensures
        r == starting_piece(*p),
{
    if p.1 == 1 {
        Some(Piece::new(Color::White, back_rank_kind_on(p.0)))
    } else if p.1 == 2 {
        Some(Piece::new(Color::White, Kind::Pawn))
    } else if p.1 == 7 {
        Some(Piece::new(Color::Black, Kind::Pawn))
    } else if p.1 == 8 {
        Some(Piece::new(Color::Black, back_rank_kind_on(p.0)))
    } else {
        None
    }
}

/// Whether `p` is among `v`.
pub(crate) fn contains_point(v: &Vec<Point>, p: &Point) -> (r: bool)
    ensures
        r == v@.contains(*p),
{
    let mut i: usize = 0;
    while i < v.len()
        invariant
            i <= v@.len(),
            forall|j: int| 0 <= j < i ==> v@[j] != *p,
        decreases v.len() - i,
    {
        if v[i] == *p {
            return true;
        }
        i = i + 1;
    }
    false
}

impl Graveyard {
    /// A graveyard with no entries.
    pub fn new() -> (r: Graveyard)
        ensures
            r@ == Map::<Color, Seq<Piece>>::empty(),
    {
        let r = Graveyard { white: None, black: None };
        assert(r@ =~= Map::<Color, Seq<Piece>>::empty());
        r
    }

    /// A graveyard with an empty entry for each side.
    pub fn with_both_sides() -> (r: Graveyard)
        ensures
            r@ == fresh_graveyard(),
    {
        let r = Graveyard { white: Some(Vec::new()), black: Some(Vec::new()) };
        assert(r@ =~= fresh_graveyard());
        r
    }

    /// The captured pieces of `color`, if that side has an entry.
    pub fn get(&self, color: &Color) -> (r: Option<&Vec<Piece>>)
        ensures
            r is Some == self@.contains_key(*color),
            r is Some ==> r->0@ == self@[*color],
    {
        match color {
            Color::White => self.white.as_ref(),
            Color::Black => self.black.as_ref(),
        }
    }

    /// Whether `color` has an entry.
    pub fn contains_key(&self, color: &Color) -> (r: bool)
        ensures
            r == self@.contains_key(*color),
    {
        match color {
            Color::White => self.white.is_some(),
            Color::Black => self.black.is_some(),
        }
    }

    /// Appends `piece` to the captured pieces of its side.
    pub fn bury(&mut self, piece: Piece)
        ensures
            final(self)@ == bury(old(self)@, piece),
    {
        match piece.color {
            Color::White => {
                let mut list = match self.white.take() {
                    Some(v) => v,
                    None => Vec::new(),
                };
                list.push(piece);
                self.white = Some(list);
            },
            Color::Black => {
                let mut list = match self.black.take() {
                    Some(v) => v,
                    None => Vec::new(),
                };
                list.push(piece);
                self.black = Some(list);
            },
        }
        assert(final(self)@ =~= bury(old(self)@, piece));
    }

    pub open spec fn entry(self, color: Color) -> Option<Vec<Piece>> {
        match color {
            Color::White => self.white,
            Color::Black => self.black,
        }
    }
}

impl View for Graveyard {
    type V = Map<Color, Seq<Piece>>;

    open spec fn view(&self) -> Map<Color, Seq<Piece>> {
        Map::new(|c: Color| self.entry(c) is Some, |c: Color| self.entry(c)->0@)
    }
}

impl Default for Board {
    /// The standard starting position.
    fn default() -> (r: Board)
        ensures
            r@ == starting_board(),
    {
        Board::new()
    }
}

/// A board holding `positions` (a later entry on the same square wins),
/// an empty graveyard entry for each side, and no en passant marker.
pub fn create_test_board(positions: Vec<(Point, Piece)>) -> (r: Board)
    requires
        forall|i: int| 0 <= i < positions@.len() ==> in_bounds(#[trigger] positions@[i].0),
    ensures
        r@ == (BoardView { grid: placed(positions@), graveyard: fresh_graveyard(), enpassant: None }),
{
    let mut current: [Option<Piece>; 64] = [None; 64];
    assert(current@ =~= placed(positions@.take(0)));
    let mut i: usize = 0;
    while i < positions.len()
        invariant
            i <= positions@.len(),
            forall|j: int| 0 <= j < positions@.len() ==> in_bounds(#[trigger] positions@[j].0),
            current@ == placed(positions@.take(i as int)),
            current@.len() == 64,
        decreases positions.len() - i,
    {
        let (point, piece) = positions[i];
        proof {
            lemma_square_index_bounds(point);
            assert(positions@.take(i as int + 1).drop_last() =~= positions@.take(i as int));
        }
        current[point.index()] = Some(piece);
        i = i + 1;
    }
    assert(positions@.take(positions@.len() as int) =~= positions@);
    Board { current, graveyard: Graveyard::with_both_sides(), enpassant: None }
}

impl View for Board {
    type V = BoardView;

    open spec fn view(&self) -> BoardView {
        BoardView {
            grid: self.current@,
            graveyard: self.graveyard@,
            enpassant: match self.enpassant {
                Some(m) => Some((m[0], m[1])),
                None => None,
            },
        }
    }
}

impl Board {
    /// Whether `point` lies on the board.
    pub fn is_in_bounds(&self, point: &Point) -> (r: bool)
        ensures
            r == in_bounds(*point),
    {
        1 <= point.0 && point.0 <= 8 && 1 <= point.1 && point.1 <= 8
    }

    /// What stands on `point`; `None` for an empty square or one off the board.
    pub fn at_point(&self, point: &Point) -> (r: Option<Piece>)
        ensures
            r == self@.at(*point),
    {
        if self.is_in_bounds(point) {
            proof {
                lemma_square_index_bounds(*point);
            }
            self.current[point.index()]
        } else {
            None
        }
    }

    /// Appends to `moves` the squares reached along one rule from `source`.
    fn walk_rule(&self, source: &Point, rule: &DirectionalMove, color: Color, moves: &mut Vec<Point>)
        requires
            in_bounds(*source),
            short_direction(rule.0),
        ensures
            final(moves)@ == old(moves)@ + self@.ray(plus(*source, rule.0), rule.0, rule.1, color, 7),
    {
        let ghost start = old(moves)@;
        let ghost whole = self@.ray(plus(*source, rule.0), rule.0, rule.1, color, 7);
        let mut current = source.add(&rule.0);
        let mut fuel: u8 = 7;
        while fuel > 0 && self.is_in_bounds(&current)
            invariant_except_break
                fuel <= 7,
                -1 <= current.0 <= 10,
                -1 <= current.1 <= 10,
                start + whole == moves@ + self@.ray(current, rule.0, rule.1, color, fuel as nat),
            invariant
                short_direction(rule.0),
            ensures
                start + whole == moves@,
            decreases fuel,
        {
            match self.at_point(&current) {
                Some(target) => {
                    if target.color != color {
                        moves.push(current);
                    }
                    assert(start + whole == moves@);
                    break ;
                },
                None => moves.push(current),
            }
            if !rule.1 {
                assert(start + whole == moves@);
                break ;
            }
            let ghost before = current;
            current = current.add(&rule.0);
            fuel = fuel - 1;
            assert(start + whole == moves@ + self@.ray(current, rule.0, rule.1, color, fuel as nat)) by {
                assert(seq![before] + self@.ray(current, rule.0, rule.1, color, fuel as nat) =~= self@.ray(before, rule.0, rule.1, color, (fuel + 1) as nat));
            }
        }
    }

    /// Whether moving `source` to `target` is an en passant capture (see `BoardView::is_en_passant`).
    pub fn is_enpassant_capture(&self, source: &Point, target: &Point) -> (r: bool)
        ensures
            r == self@.is_en_passant(*source, *target),
    {
        match (self.at_point(source), self.enpassant) {
            (Some(p), Some(marker)) => {
                p.kind == Kind::Pawn && *target == marker[0] && self.is_in_bounds(target)
                    && self.at_point(target).is_none() && match self.at_point(&marker[1]) {
                    Some(q) => q.kind == Kind::Pawn && q.color != p.color,
                    None => false,
                }
            },
            _ => false,
        }
    }

    /// Whether a pawn of `color` at `source` may move diagonally onto `target`.
    fn pawn_takes(&self, source: &Point, color: Color, target: &Point) -> (r: bool)
        requires
            in_bounds(*source),
            -1 <= target.0 <= 10 && -1 <= target.1 <= 10,
        ensures
            r == self@.pawn_takes(*source, color, *target),
    {
        if !self.is_in_bounds(target) {
            return false;
        }
        match self.at_point(target) {
            Some(q) => q.color != color,
            None => self.is_enpassant_capture(source, target),
        }
    }

    /// The pseudo-legal moves of the pawn at `source`.
    pub fn get_moves_for_pawn(&self, source: &Point) -> (r: Vec<Point>)
        requires
            self@.at(*source) matches Some(p) && p.kind == Kind::Pawn,
        ensures
            r@ == self@.pawn_moves(*source, self@.at(*source)->0),
    {
        let piece = match self.at_point(source) {
            Some(p) => p,
            None => return Vec::new(),
        };
        let direction: i8 = match piece.color {
            Color::White => 1,
            Color::Black => -1,
        };
        let one = Point(source.0, source.1 + direction);
        let two = Point(source.0, source.1 + 2 * direction);
        let right = Point(source.0 + 1, source.1 + direction);
        let left = Point(source.0 - 1, source.1 + direction);
        let mut moves: Vec<Point> = Vec::new();
        if self.is_in_bounds(&one) && self.at_point(&one).is_none() {
            moves.push(one);
        }
        if self.pawn_takes(source, piece.color, &right) {
            moves.push(right);
        }
        if self.pawn_takes(source, piece.color, &left) {
            moves.push(left);
        }
        if !piece.has_moved && self.is_in_bounds(&one) && self.at_point(&one).is_none()
            && self.is_in_bounds(&two) && self.at_point(&two).is_none() {
            moves.push(two);
        }
        proof {
            let v = self@;
            let a = if in_bounds(one) && v.at(one) is None { seq![one] } else { seq![] };
            let b = if v.pawn_takes(*source, piece.color, right) { seq![right] } else { seq![] };
            let c = if v.pawn_takes(*source, piece.color, left) { seq![left] } else { seq![] };
            let d = if !piece.has_moved && in_bounds(one) && v.at(one) is None && in_bounds(two)
                && v.at(two) is None { seq![two] } else { seq![] };
            assert(moves@ =~= a + b + c + d);
        }
        moves
    }

    /// The pseudo-legal moves of the piece at `source` (none for an empty square):
    /// each rule of its kind walked in turn, or the pawn's own moves.
    pub fn get_moves_for_piece(&self, source: &Point) -> (r: Vec<Point>)
        ensures
            r@ == self@.pseudo_moves(*source),
    {
        let piece = match self.at_point(source) {
            Some(p) => p,
            None => return Vec::new(),
        };
        if piece.kind == Kind::Pawn {
            return self.get_moves_for_pawn(source);
        }
        let rs = piece.get_moves();
        proof {
            lemma_rules_short(piece.kind);
        }
        let mut moves: Vec<Point> = Vec::new();
        let mut i: usize = 0;
        while i < rs.len()
            invariant
                in_bounds(*source),
                rs@ == rules(piece.kind),
                forall|j: int| 0 <= j < rs@.len() ==> short_direction(#[trigger] rs@[j].0),
                i <= rs@.len(),
                moves@ == self@.rule_moves(*source, piece.color, rs@.take(i as int)),
            decreases rs.len() - i,
        {
            let ghost before = moves@;
            self.walk_rule(source, &rs[i], piece.color, &mut moves);
            proof {
                assert(rs@.take(i as int + 1).drop_last() =~= rs@.take(i as int));
            }
            i = i + 1;
        }
        proof {
            assert(rs@.take(i as int) =~= rs@);
        }
        moves
    }

    /// Whether moving `source` to `target` is castling: the king moves two files along its rank.
    pub fn is_castling(&self, source: &Point, target: &Point) -> (r: bool)
        ensures
            r == self@.is_castling(*source, *target),
    {
        match self.at_point(source) {
            Some(k) => k.kind == Kind::King && target.1 == source.1 && (target.0 as i16
                - source.0 as i16 == 2 || source.0 as i16 - target.0 as i16 == 2),
            None => false,
        }
    }

    /// Whether the castling move from `source` to `target` is clear.
    fn castling_clear(&self, source: &Point, target: &Point) -> (r: bool)
        requires
            self@.is_castling(*source, *target),
        ensures
            r == self@.castling_clear(*source, *target),
    {
        let king = match self.at_point(source) {
            Some(k) => k,
            None => return false,
        };
        let corner = if target.0 > source.0 {
            Point(8, source.1)
        } else {
            Point(1, source.1)
        };
        let rook_ok = match self.at_point(&corner) {
            Some(r) => r.kind == Kind::Rook && r.color == king.color && !r.has_moved,
            None => false,
        };
        if king.has_moved || !rook_ok {
            return false;
        }
        let step: i8 = if target.0 > source.0 {
            1
        } else {
            -1
        };
        let mut x: i8 = source.0 + step;
        while x != corner.0
            invariant
                in_bounds(*source),
                in_bounds(corner),
                corner == rook_corner(*source, *target),
                step == (if target.0 > source.0 { 1i8 } else { -1i8 }),
                step == 1 ==> source.0 < x <= corner.0,
                step == -1 ==> corner.0 <= x < source.0,
                forall|y: int|
                    strictly_between(y, source.0 as int, x as int) ==> #[trigger] self@.at(
                        Point(y as i8, source.1),
                    ) is None,
            decreases (if step == 1 { corner.0 - x } else { x - corner.0 }),
        {
            if self.at_point(&Point(x, source.1)).is_some() {
                assert(strictly_between(x as int, source.0 as int, corner.0 as int));
                assert(self@.at(Point((x as int) as i8, source.1)) is Some);
                return false;
            }
            x = x + step;
        }
        true
    }

    /// Whether moving `source` to `target` is a pawn's double step from its start.
    pub fn is_pawn_double_move(&self, source: &Point, target: &Point) -> (r: bool)
        ensures
            r == self@.is_double_step(*source, *target),
    {
        match self.at_point(source) {
            Some(p) => {
                let two: i16 = match p.color {
                    Color::White => 2,
                    Color::Black => -2,
                };
                p.kind == Kind::Pawn && !p.has_moved && target.1 as i16 == source.1 as i16 + two
                    && target.0 == source.0
            },
            None => false,
        }
    }

    /// Whether `move_piece(source, target)` would be carried out.
    fn relocation_allowed(&self, source: &Point, target: &Point) -> (r: bool)
        ensures
            r == self@.can_relocate(*source, *target),
    {
        if !self.is_in_bounds(target) || *source == *target {
            return false;
        }
        let piece = match self.at_point(source) {
            Some(p) => p,
            None => return false,
        };
        match self.at_point(target) {
            Some(q) => {
                if q.color == piece.color {
                    return false;
                }
            },
            None => {},
        }
        !self.is_castling(source, target) || self.castling_clear(source, target)
    }

    /// Carries out an allowed move on the squares alone.
    fn shift(&mut self, source: &Point, target: &Point)
        requires
            old(self)@.can_relocate(*source, *target),
        ensures
            final(self).current@ == old(self)@.moved_grid(*source, *target),
            final(self).graveyard == old(self).graveyard,
            final(self).enpassant == old(self).enpassant,
    {
        let ghost old_view = self@;
        let piece = match self.at_point(source) {
            Some(p) => p,
            None => return,
        };
        let en_passant = self.is_enpassant_capture(source, target);
        let castling = self.is_castling(source, target);
        proof {
            lemma_square_index_bounds(*source);
            lemma_square_index_bounds(*target);
        }
        self.current[target.index()] = Some(Piece { has_moved: true, ..piece });
        self.current[source.index()] = None;
        if en_passant {
            match self.enpassant {
                Some(m) => {
                    proof {
                        lemma_square_index_bounds(m[1]);
                    }
                    self.current[m[1].index()] = None;
                },
                None => {},
            }
        } else if castling {
            let corner = if target.0 > source.0 {
                Point(8, source.1)
            } else {
                Point(1, source.1)
            };
            let landing = if target.0 > source.0 {
                Point(source.0 + 1, source.1)
            } else {
                Point(source.0 - 1, source.1)
            };
            proof {
                lemma_square_index_bounds(corner);
                lemma_square_index_bounds(landing);
            }
            let rook = self.current[corner.index()];
            self.current[corner.index()] = None;
            match rook {
                Some(rk) => {
                    self.current[landing.index()] = Some(Piece { has_moved: true, ..rk });
                },
                None => {},
            }
        }
        assert(self.current@ =~= old_view.moved_grid(*source, *target));
    }

    /// Moves the piece on `source` to `target` without asking whether the
    /// move is legal, and reports whether it was carried out. It is not when
    /// `target` is off the board or is `source`, when no piece stands on
    /// `source`, when a piece of the same side stands on `target`, or when a
    /// castling move is not clear; the board is then unchanged. Otherwise a
    /// piece taken is appended to its side's graveyard, the moved piece is
    /// marked as moved, a pawn taken en passant is removed, a castling rook
    /// moves beside the king, and the en passant marker is set after a
    /// double step and cleared after any other move.
    pub fn move_piece(&mut self, source: Point, target: Point) -> (r: bool)
        ensures
            r == old(self)@.can_relocate(source, target),
            r ==> final(self)@ == old(self)@.after_move(source, target),
            !r ==> *final(self) == *old(self),
    {
        if !self.relocation_allowed(&source, &target) {
            return false;
        }
        let ghost old_view = self@;
        let piece = match self.at_point(&source) {
            Some(p) => p,
            None => return false,
        };
        let victim = match self.at_point(&target) {
            Some(q) => Some(q),
            None => {
                if self.is_enpassant_capture(&source, &target) {
                    match self.enpassant {
                        Some(m) => self.at_point(&m[1]),
                        None => None,
                    }
                } else {
                    None
                }
            },
        };
        let double = self.is_pawn_double_move(&source, &target);
        self.shift(&source, &target);
        match victim {
            Some(q) => self.graveyard.bury(q),
            None => {},
        }
        self.enpassant = if double {
            let direction: i8 = match piece.color {
                Color::White => 1,
                Color::Black => -1,
            };
            Some([Point(source.0, source.1 + direction), target])
        } else {
            None
        };
        proof {
            assert(self@.grid =~= old_view.moved_grid(source, target));
            assert(self@.graveyard =~= old_view.moved_graveyard(source, target));
        }
        true
    }

    /// Whether the king of `color` is safe once the piece on `source` moved to
    /// `target`. The move is tried on the squares alone and taken back.
    fn safe_after(&mut self, source: &Point, target: &Point, color: &Color) -> (r: bool)
        ensures
            *final(self) == *old(self),
            r == !old(self)@.trial(*source, *target).in_check(*color),
    {
        let saved = self.current;
        if self.relocation_allowed(source, target) {
            self.shift(source, target);
        }
        assert(self@ == old(self)@.trial(*source, *target));
        let safe = !self.king_in_check(color);
        self.current = saved;
        safe
    }

    /// Whether the king on `source` may castle to `target`.
    fn castle_allowed(&mut self, source: &Point, target: &Point) -> (r: bool)
        requires
            in_bounds(*source),
            -1 <= target.0 <= 10,
        ensures
            *final(self) == *old(self),
            r == old(self)@.castle_allowed(*source, *target),
    {
        if !self.is_castling(source, target) || !self.relocation_allowed(source, target) {
            return false;
        }
        let color = match self.at_point(source) {
            Some(p) => p.color,
            None => return false,
        };
        if self.king_in_check(&color) {
            return false;
        }
        let transit = if target.0 > source.0 {
            Point(source.0 + 1, source.1)
        } else {
            Point(source.0 - 1, source.1)
        };
        self.safe_after(source, &transit, &color) && self.safe_after(source, target, &color)
    }

    /// The legal moves of the piece on `source`, in generation order (none
    /// for an empty square): its pseudo-legal moves after which its own king
    /// is not attacked, then, for a king, its castling moves. Each move is
    /// tried on the squares alone and taken back; the board is the same afterwards.
    pub fn get_allowed_moves(&mut self, source: &Point) -> (r: Vec<Point>)
        ensures
            *final(self) == *old(self),
            r@ == old(self)@.legal_moves(*source),
    {
        let color = match self.at_point(source) {
            Some(p) => p.color,
            None => return Vec::new(),
        };
        let moves = self.get_moves_for_piece(source);
        let ghost start = *self;
        let ghost pred = |t: Point| start@.keeps_king_safe(*source, t);
        let mut allowed: Vec<Point> = Vec::new();
        let mut i: usize = 0;
        while i < moves.len()
            invariant
                *self == start,
                start == *old(self),
                start@.at(*source) matches Some(p) && p.color == color,
                moves@ == start@.pseudo_moves(*source),
                pred == (|t: Point| start@.keeps_king_safe(*source, t)),
                i <= moves@.len(),
                allowed@ == moves@.take(i as int).filter(pred),
            decreases moves.len() - i,
        {
            let target = moves[i];
            proof {
                lemma_filter_take_step(moves@, pred, i as int);
            }
            if self.safe_after(source, &target, &color) {
                allowed.push(target);
            }
            i = i + 1;
        }
        proof {
            assert(moves@.take(moves@.len() as int) =~= moves@);
        }
        let ghost filtered = allowed@;
        let kingside = Point(source.0 + 2, source.1);
        if self.castle_allowed(source, &kingside) {
            allowed.push(kingside);
        }
        let queenside = Point(source.0 - 2, source.1);
        if self.castle_allowed(source, &queenside) {
            allowed.push(queenside);
        }
        assert(allowed@ =~= filtered + start@.castle_moves(*source));
        allowed
    }

    /// The square at place `i` of the grid.
    pub(crate) fn square(i: usize) -> (r: Point)
        requires
            i < 64,
        ensures
            r == square_at(i as int),
            in_bounds(r),
    {
        proof {
            lemma_square_at(i as int);
        }
        Point((i % 8 + 1) as i8, (i / 8 + 1) as i8)
    }

    /// The king of `color`, if it has one.
    pub(crate) fn locate_king(&self, color: &Color) -> (r: Option<Point>)
        ensures
            r is Some == self@.has_king(*color),
            r is Some ==> r->0 == self@.king_square(*color),
    {
        let mut i: usize = 0;
        while i < 64
            invariant
                i <= 64,
                forall|j: int| 0 <= j < i ==> !self@.is_king_of(#[trigger] square_at(j), *color),
            decreases 64 - i,
        {
            let p = Board::square(i);
            match self.at_point(&p) {
                Some(piece) => {
                    if piece.kind == Kind::King && piece.color == *color {
                        proof {
                            assert(self@.first_king(*color, i as int));
                            let k = choose|k: int| self@.first_king(*color, k);
                            lemma_first_king_unique(self@, *color, i as int, k);
                        }
                        return Some(p);
                    }
                },
                None => {},
            }
            i = i + 1;
        }
        None
    }

    /// The square of the king of `color`. There must be one.
    pub fn find_king(&self, color: &Color) -> (r: Point)
        requires
            self@.has_king(*color),
        ensures
            r == self@.king_square(*color),
    {
        match self.locate_king(color) {
            Some(p) => p,
            None => Point(0, 0),
        }
    }

    /// The squares, in grid order, of the pieces opposing `color` that can
    /// move to `source` (ignoring the safety of their own king).
    pub fn covered_by_opponent(&self, source: &Point, color: &Color) -> (r: Vec<Point>)
        ensures
            r@ == self@.attackers(*source, *color),
    {
        let opponent = color.inverse();
        let ghost pred = |q: Point| self@.attacks(q, *source, *color);
        let mut covering: Vec<Point> = Vec::new();
        let mut i: usize = 0;
        while i < 64
            invariant
                i <= 64,
                opponent == color.opponent(),
                pred == (|q: Point| self@.attacks(q, *source, *color)),
                covering@ == all_squares().take(i as int).filter(pred),
            decreases 64 - i,
        {
            let q = Board::square(i);
            proof {
                lemma_filter_take_step(all_squares(), pred, i as int);
            }
            match self.at_point(&q) {
                Some(piece) => {
                    if piece.color == opponent {
                        let moves = self.get_moves_for_piece(&q);
                        if contains_point(&moves, source) {
                            covering.push(q);
                        }
                    }
                },
                None => {},
            }
            i = i + 1;
        }
        proof {
            assert(all_squares().take(64) =~= all_squares());
        }
        covering
    }

    /// Whether the king of `color` is attacked; `false` when it has none.
    pub(crate) fn king_in_check(&self, color: &Color) -> (r: bool)
        ensures
            r == self@.in_check(*color),
    {
        match self.locate_king(color) {
            Some(king) => self.covered_by_opponent(&king, color).len() > 0,
            None => false,
        }
    }

    /// The pieces that attack the king of `color`, or `None` when there are
    /// none. The side must have a king.
    pub fn detect_check(&self, color: &Color) -> (r: Option<Vec<Point>>)
        requires
            self@.has_king(*color),
        ensures
            r is Some == self@.in_check(*color),
            r is Some ==> r->0@ == self@.attackers(self@.king_square(*color), *color),
    {
        let king = self.find_king(color);
        let points = self.covered_by_opponent(&king, color);
        if points.len() > 0 {
            Some(points)
        } else {
            None
        }
    }

    /// The standard starting position: White on ranks 1 and 2, Black on
    /// ranks 7 and 8, nothing captured, no en passant marker.
    pub fn new() -> (r: Board)
        ensures
            r@ == starting_board(),
    {
        let mut current: [Option<Piece>; 64] = [None; 64];
        let mut i: usize = 0;
        while i < 64
            invariant
                i <= 64,
                current@.len() == 64,
                forall|j: int| 0 <= j < i ==> current@[j] == starting_piece(square_at(j)),
            decreases 64 - i,
        {
            let p = Board::square(i);
            current[i] = starting_piece_on(&p);
            i = i + 1;
        }
        let r = Board { current, graveyard: Graveyard::with_both_sides(), enpassant: None };
        assert(r@.grid =~= starting_board().grid);
        r
    }
}

} // verus!
