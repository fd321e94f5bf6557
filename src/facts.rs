use vstd::prelude::*;

use crate::model::{
    forward, lemma_first_king_unique, rook_corner, rook_landing, strictly_between, BoardView,
};
use crate::pieces::{rules, DirectionalMove, Kind, Piece};
use crate::{in_bounds, lemma_square_at, lemma_square_index_bounds, plus, square_at, square_index};
use crate::{Color, Point};

verus! {

/// The number of occupied squares.
pub open spec fn occupied(g: Seq<Option<Piece>>) -> nat
    decreases g.len(),
{
    if g.len() == 0 {
        0
    } else {
        occupied(g.drop_last()) + if g.last() is Some {
            1nat
        } else {
            0nat
        }
    }
}

/// Replacing one square changes the count by what left and what came.
proof fn lemma_occupied_update(g: Seq<Option<Piece>>, i: int, v: Option<Piece>)
    requires
        0 <= i < g.len(),
    ensures
        occupied(g.update(i, v)) + (if g[i] is Some {
            1int
        } else {
            0int
        }) == occupied(g) + (if v is Some {
            1int
        } else {
            0int
        }),
    decreases g.len(),
{
    if i == g.len() - 1 {
        assert(g.update(i, v).drop_last() =~= g.drop_last());
    } else {
        lemma_occupied_update(g.drop_last(), i, v);
        assert(g.update(i, v).drop_last() =~= g.drop_last().update(i, v));
    }
}

/// Distinct squares on the board have distinct places in the grid.
pub proof fn lemma_square_index_injective(p: Point, q: Point)
    requires
        in_bounds(p),
        in_bounds(q),
        p != q,
    ensures
        square_index(p) != square_index(q),
{
}

/// A move that is carried out takes at most one piece off the board: the
/// number of occupied squares drops by one when it captures (on the target
/// square or en passant) and stays the same otherwise, so a full board of 32
/// keeps 31 or 32.
pub proof fn lemma_move_conserves_pieces(b: BoardView, s: Point, t: Point)
    requires
        b.grid.len() == 64,
        b.can_relocate(s, t),
    ensures
        occupied(b.after_move(s, t).grid) + (if b.at(t) is Some || b.is_en_passant(s, t) {
            1int
        } else {
            0int
        }) == occupied(b.grid),
        occupied(b.after_move(s, t).grid) == occupied(b.grid) || occupied(b.after_move(s, t).grid)
            + 1 == occupied(b.grid),
{
    let p = b.at(s)->0;
    lemma_square_index_bounds(s);
    lemma_square_index_bounds(t);
    lemma_square_index_injective(s, t);
    let g0 = b.grid;
    let g1 = g0.update(square_index(t), Some(Piece { has_moved: true, ..p }));
    let g2 = g1.update(square_index(s), None);
    lemma_occupied_update(g0, square_index(t), Some(Piece { has_moved: true, ..p }));
    lemma_occupied_update(g1, square_index(s), None);
    if b.is_en_passant(s, t) {
        let land = (b.enpassant->0).1;
        lemma_square_index_bounds(land);
        lemma_square_index_injective(land, s);
        lemma_square_index_injective(land, t);
        lemma_occupied_update(g2, square_index(land), None);
    } else if b.is_castling(s, t) {
        let corner = rook_corner(s, t);
        let landing = rook_landing(s, t);
        let rook = b.at(corner)->0;
        lemma_square_index_bounds(corner);
        lemma_square_index_bounds(landing);
        lemma_square_index_injective(corner, s);
        lemma_square_index_injective(corner, landing);
        lemma_square_index_injective(landing, s);
        lemma_square_index_injective(corner, t);
        lemma_square_index_injective(landing, t);
        assert(strictly_between(landing.0 as int, s.0 as int, corner.0 as int));
        assert(b.at(Point((landing.0 as int) as i8, s.1)) is None);
        assert(strictly_between(t.0 as int, s.0 as int, corner.0 as int));
        assert(b.at(Point((t.0 as int) as i8, s.1)) is None);
        let g3 = g2.update(square_index(corner), None);
        lemma_occupied_update(g2, square_index(corner), None);
        lemma_occupied_update(g3, square_index(landing), Some(Piece { has_moved: true, ..rook }));
    }
}

/// No legal move of the piece on `s` leaves its own king attacked, and every
/// pseudo-legal move that does not is legal. The only other legal moves are
/// a king's castling moves.
pub proof fn lemma_legal_moves_exclude_self_check(b: BoardView, s: Point, t: Point)
    ensures
        b.legal_moves(s).contains(t) ==> !b.trial(s, t).in_check(b.at(s)->0.color),
        b.pseudo_moves(s).contains(t) && !b.trial(s, t).in_check(b.at(s)->0.color)
            ==> b.legal_moves(s).contains(t),
        b.legal_moves(s).contains(t) ==> b.pseudo_moves(s).contains(t) || b.castle_moves(
            s,
        ).contains(t),
        !(b.at(s) matches Some(p) && p.kind == Kind::King) ==> b.castle_moves(s).len() == 0,
{
    let pred = |t: Point| b.keeps_king_safe(s, t);
    let moves = b.pseudo_moves(s);
    let safe = moves.filter(pred);
    let castles = b.castle_moves(s);
    if b.legal_moves(s).contains(t) {
        let k = choose|k: int| 0 <= k < b.legal_moves(s).len() && b.legal_moves(s)[k] == t;
        if k < safe.len() {
            assert(safe[k] == t);
            assert(safe.contains(t));
            moves.lemma_filter_contains_rev(pred, t);
            moves.lemma_filter_pred(pred, k);
        } else {
            assert(castles[k - safe.len()] == t);
            assert(castles.contains(t));
        }
    }
    if moves.contains(t) && pred(t) {
        let i = choose|i: int| 0 <= i < moves.len() && moves[i] == t;
        moves.lemma_filter_contains(pred, i);
        let j = choose|j: int| 0 <= j < safe.len() && safe[j] == t;
        assert(b.legal_moves(s)[j] == t);
    }
}

/// After a pawn's double step the en passant marker holds the square it
/// skipped and the square it landed on (for a White pawn from rank 2: the
/// squares on ranks 3 and 4); after any other move the marker is cleared.
pub proof fn lemma_en_passant_window(b: BoardView, s: Point, t: Point)
    requires
        b.can_relocate(s, t),
    ensures
        b.is_double_step(s, t) ==> b.after_move(s, t).enpassant == Some(
            (Point(s.0, (s.1 + forward(b.at(s)->0.color)) as i8), t),
        ),
        !b.is_double_step(s, t) ==> b.after_move(s, t).enpassant is None,
        b.at(s) == Some(Piece { color: Color::White, kind: Kind::Pawn, has_moved: false })
            && s.1 == 2 && t == Point(s.0, 4i8) ==> b.after_move(s, t).enpassant == Some(
            (Point(s.0, 3i8), Point(s.0, 4i8)),
        ),
{
}


/// Two views with the same squares walk the same rays.
proof fn lemma_ray_same_grid(
    b1: BoardView,
    b2: BoardView,
    cur: Point,
    d: Point,
    slides: bool,
    color: Color,
    fuel: nat,
)
    requires
        b1.grid == b2.grid,
    ensures
        b1.ray(cur, d, slides, color, fuel) == b2.ray(cur, d, slides, color, fuel),
    decreases fuel,
{
    if fuel > 0 && in_bounds(cur) {
        lemma_ray_same_grid(b1, b2, plus(cur, d), d, slides, color, (fuel - 1) as nat);
    }
}

/// Two views with the same squares give the same moves along rules.
proof fn lemma_rule_moves_same_grid(
    b1: BoardView,
    b2: BoardView,
    s: Point,
    color: Color,
    rs: Seq<DirectionalMove>,
)
    requires
        b1.grid == b2.grid,
    ensures
        b1.rule_moves(s, color, rs) == b2.rule_moves(s, color, rs),
    decreases rs.len(),
{
    if rs.len() > 0 {
        lemma_rule_moves_same_grid(b1, b2, s, color, rs.drop_last());
        lemma_ray_same_grid(b1, b2, plus(s, rs.last().0), rs.last().0, rs.last().1, color, 7);
    }
}

/// Whether a piece can move onto an occupied square depends on the squares
/// alone, not on the en passant marker or the graveyard.
proof fn lemma_reach_same_grid(b1: BoardView, b2: BoardView, q: Point, target: Point)
    requires
        b1.grid == b2.grid,
        b1.at(target) is Some,
    ensures
        b1.pseudo_moves(q).contains(target) == b2.pseudo_moves(q).contains(target),
{
    assert(b1.at(q) == b2.at(q));
    match b1.at(q) {
        None => {},
        Some(p) => {
            if p.kind == Kind::Pawn {
                let dir = forward(p.color);
                let right = Point((q.0 + 1) as i8, (q.1 + dir) as i8);
                let left = Point((q.0 - 1) as i8, (q.1 + dir) as i8);
                assert(b1.at(right) == b2.at(right));
                assert(b1.at(left) == b2.at(left));
                let one = Point(q.0, (q.1 + dir) as i8);
                let two = Point(q.0, (q.1 + 2 * dir) as i8);
                assert(b1.at(one) == b2.at(one));
                assert(b1.at(two) == b2.at(two));
                let a = if in_bounds(one) && b1.at(one) is None { seq![one] } else { seq![] };
                let d = if !p.has_moved && in_bounds(one) && b1.at(one) is None && in_bounds(two)
                    && b1.at(two) is None { seq![two] } else { seq![] };
                let r1 = if b1.pawn_takes(q, p.color, right) { seq![right] } else { seq![] };
                let r2 = if b2.pawn_takes(q, p.color, right) { seq![right] } else { seq![] };
                let l1 = if b1.pawn_takes(q, p.color, left) { seq![left] } else { seq![] };
                let l2 = if b2.pawn_takes(q, p.color, left) { seq![left] } else { seq![] };
                assert(r1.contains(target) == r2.contains(target)) by {
                    if right == target {
                        assert(r1 == r2);
                    } else {
                        assert(!r1.contains(target) && !r2.contains(target)) by {
                            if r1.contains(target) {
                                assert(r1[0] == target);
                            }
                            if r2.contains(target) {
                                assert(r2[0] == target);
                            }
                        }
                    }
                }
                assert(l1.contains(target) == l2.contains(target)) by {
                    if left == target {
                        assert(l1 == l2);
                    } else {
                        assert(!l1.contains(target) && !l2.contains(target)) by {
                            if l1.contains(target) {
                                assert(l1[0] == target);
                            }
                            if l2.contains(target) {
                                assert(l2[0] == target);
                            }
                        }
                    }
                }
                broadcast use vstd::seq_lib::lemma_seq_concat_contains_all_elements;
                assert(b1.pawn_moves(q, p) == a + r1 + l1 + d);
                assert(b2.pawn_moves(q, p) == a + r2 + l2 + d);
            } else {
                lemma_rule_moves_same_grid(b1, b2, q, p.color, rules(p.kind));
            }
        },
    }
}

/// Whether a side is in check depends on the squares alone.
pub proof fn lemma_in_check_same_grid(b1: BoardView, b2: BoardView, c: Color)
    requires
        b1.grid == b2.grid,
    ensures
        b1.in_check(c) == b2.in_check(c),
{
    assert(b1.has_king(c) == b2.has_king(c)) by {
        if b1.has_king(c) {
            let i = choose|i: int| 0 <= i < 64 && b1.is_king_of(#[trigger] square_at(i), c);
            assert(b2.is_king_of(square_at(i), c));
        }
        if b2.has_king(c) {
            let i = choose|i: int| 0 <= i < 64 && b2.is_king_of(#[trigger] square_at(i), c);
            assert(b1.is_king_of(square_at(i), c));
        }
    }
    if b1.has_king(c) {
        let i = choose|i: int| b1.first_king(c, i);
        let i0 = choose|i0: int| 0 <= i0 < 64 && b1.is_king_of(#[trigger] square_at(i0), c);
        lemma_some_first_king(b1, c, i0);
        assert(b1.first_king(c, i));
        assert forall|j: int| 0 <= j < i implies !b2.is_king_of(#[trigger] square_at(j), c) by {
            assert(!b1.is_king_of(square_at(j), c));
        }
        assert(b2.first_king(c, i));
        let k = choose|k: int| b2.first_king(c, k);
        lemma_first_king_unique(b2, c, i, k);
        let king = b1.king_square(c);
        assert(king == b2.king_square(c));
        lemma_square_at(i);
        let pred1 = |q: Point| b1.attacks(q, king, c);
        let pred2 = |q: Point| b2.attacks(q, king, c);
        assert forall|q: Point| #[trigger] pred1(q) == pred2(q) by {
            lemma_reach_same_grid(b1, b2, q, king);
            assert(b1.at(q) == b2.at(q));
        }
        assert(pred1 =~= pred2);
    }
}

/// Where a side has a king, some place holds its first one.
proof fn lemma_some_first_king(b: BoardView, c: Color, i: int)
    requires
        0 <= i < 64,
        b.is_king_of(square_at(i), c),
    ensures
        exists|k: int| b.first_king(c, k),
    decreases i,
{
    if forall|j: int| 0 <= j < i ==> !b.is_king_of(#[trigger] square_at(j), c) {
        assert(b.first_king(c, i));
    } else {
        let j = choose|j: int| 0 <= j < i && b.is_king_of(#[trigger] square_at(j), c);
        lemma_some_first_king(b, c, j);
    }
}


/// Every pseudo-legal move of a pawn ends on the board, off its own square,
/// and not on a piece of its own side.
pub proof fn lemma_pawn_targets(b: BoardView, s: Point, t: Point)
    requires
        b.at(s) matches Some(p) && p.kind == Kind::Pawn,
        b.pseudo_moves(s).contains(t),
    ensures
        in_bounds(t),
        t != s,
        !(b.at(t) matches Some(q) && q.color == b.at(s)->0.color),
        t.1 == s.1 + forward(b.at(s)->0.color) || t.1 == s.1 + 2 * forward(b.at(s)->0.color),
{
    let moves = b.pseudo_moves(s);
    let i = choose|i: int| 0 <= i < moves.len() && moves[i] == t;
    assert(moves[i] == t);
}

/// Every square on a ray is on the board and holds no piece of the walker's
/// side; a single-step ray holds its first square at most.
proof fn lemma_ray_targets(
    b: BoardView,
    cur: Point,
    d: Point,
    slides: bool,
    color: Color,
    fuel: nat,
    e: Point,
)
    requires
        b.ray(cur, d, slides, color, fuel).contains(e),
    ensures
        in_bounds(e),
        !(b.at(e) matches Some(q) && q.color == color),
        !slides ==> e == cur,
    decreases fuel,
{
    let r = b.ray(cur, d, slides, color, fuel);
    let i = choose|i: int| 0 <= i < r.len() && r[i] == e;
    if i > 0 {
        let rest = b.ray(plus(cur, d), d, slides, color, (fuel - 1) as nat);
        assert(rest[i - 1] == e);
        lemma_ray_targets(b, plus(cur, d), d, slides, color, (fuel - 1) as nat, e);
    }
}

/// Every square reached along rules lies on the ray of one of them.
proof fn lemma_rule_moves_targets(
    b: BoardView,
    s: Point,
    color: Color,
    rs: Seq<DirectionalMove>,
    e: Point,
)
    requires
        b.rule_moves(s, color, rs).contains(e),
    ensures
        exists|j: int|
            0 <= j < rs.len() && b.ray(plus(s, rs[j].0), rs[j].0, rs[j].1, color, 7).contains(e),
    decreases rs.len(),
{
    broadcast use vstd::seq_lib::lemma_seq_concat_contains_all_elements;

    let last = rs.last();
    if b.ray(plus(s, last.0), last.0, last.1, color, 7).contains(e) {
        assert(rs[rs.len() - 1] == last);
    } else {
        lemma_rule_moves_targets(b, s, color, rs.drop_last(), e);
        let j = choose|j: int|
            0 <= j < rs.drop_last().len() && b.ray(
                plus(s, rs.drop_last()[j].0),
                rs.drop_last()[j].0,
                rs.drop_last()[j].1,
                color,
                7,
            ).contains(e);
        assert(rs[j] == rs.drop_last()[j]);
    }
}

/// Every pseudo-legal move can be carried out by `move_piece`.
pub proof fn lemma_pseudo_move_relocates(b: BoardView, s: Point, t: Point)
    requires
        b.pseudo_moves(s).contains(t),
    ensures
        b.can_relocate(s, t),
{
    let p = b.at(s)->0;
    if p.kind == Kind::Pawn {
        lemma_pawn_targets(b, s, t);
    } else {
        let rs = rules(p.kind);
        lemma_rule_moves_targets(b, s, p.color, rs, t);
        let j = choose|j: int|
            0 <= j < rs.len() && b.ray(plus(s, rs[j].0), rs[j].0, rs[j].1, p.color, 7).contains(t);
        lemma_ray_targets(b, plus(s, rs[j].0), rs[j].0, rs[j].1, p.color, 7, t);
        if p.kind == Kind::King {
            assert(!rs[j].1 && -1 <= rs[j].0.0 <= 1);
        }
    }
}

/// A legal move can be carried out, and once carried out by `move_piece`
/// it leaves the mover's own king unattacked.
pub proof fn lemma_legal_move_is_safe(b: BoardView, s: Point, t: Point)
    requires
        b.legal_moves(s).contains(t),
    ensures
        b.can_relocate(s, t),
        !b.after_move(s, t).in_check(b.at(s)->0.color),
{
    lemma_legal_moves_exclude_self_check(b, s, t);
    if b.pseudo_moves(s).contains(t) {
        lemma_pseudo_move_relocates(b, s, t);
    } else {
        let castles = b.castle_moves(s);
        let i = choose|i: int| 0 <= i < castles.len() && castles[i] == t;
        assert(b.castle_allowed(s, t));
    }
    lemma_in_check_same_grid(b.trial(s, t), b.after_move(s, t), b.at(s)->0.color);
}

} // verus!
