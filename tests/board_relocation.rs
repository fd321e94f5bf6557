use chess::board::{create_test_board, Graveyard};
use chess::pieces::{Kind, Piece};
use chess::{Color, Point};

fn moved(color: Color, kind: Kind) -> Piece {
    Piece {
        color,
        kind,
        has_moved: true,
    }
}

#[test]
fn test_move_piece_test_move_to_empty_and_sets_has_moved() {
    let mut board = create_test_board(vec![(Point(1, 1), Piece::new(Color::White, Kind::Rook))]);

    let result: bool = board.move_piece(Point(1, 1), Point(2, 1));

    assert!(result);
    assert_eq!(board.at_point(&Point(1, 1)), None);
    assert_eq!(
        board.at_point(&Point(2, 1)),
        Some(Piece {
            color: Color::White,
            kind: Kind::Rook,
            has_moved: true,
        })
    );
}

#[test]
fn tests_test_move_to_empty_and_sets_has_moved() {
    let mut board = create_test_board(vec![(Point(1, 1), Piece::new(Color::White, Kind::Rook))]);

    let result: bool = board.move_piece(Point(1, 1), Point(2, 1));

    assert!(result);
    assert_eq!(board.at_point(&Point(1, 1)), None);
    assert_eq!(board.at_point(&Point(2, 1)), Some(moved(Color::White, Kind::Rook)));
}

#[test]
fn test_move_piece_test_move_to_occupied_by_same_color() {
    let mut board = create_test_board(vec![
        (Point(1, 1), Piece::new(Color::White, Kind::Rook)),
        (Point(2, 1), Piece::new(Color::White, Kind::Pawn)),
    ]);

    let result: bool = board.move_piece(Point(1, 1), Point(2, 1));

    assert!(!result);
    assert_eq!(
        board.at_point(&Point(1, 1)),
        Some(Piece {
            color: Color::White,
            kind: Kind::Rook,
            has_moved: false,
        })
    );
    assert_eq!(
        board.at_point(&Point(2, 1)),
        Some(Piece {
            color: Color::White,
            kind: Kind::Pawn,
            has_moved: false,
        })
    );
}

#[test]
fn tests_test_move_to_occupied_by_same_color() {
    let mut board = create_test_board(vec![
        (Point(1, 1), Piece::new(Color::White, Kind::Rook)),
        (Point(2, 1), Piece::new(Color::White, Kind::Pawn)),
    ]);

    let result: bool = board.move_piece(Point(1, 1), Point(2, 1));

    assert!(!result);
    assert_eq!(board.at_point(&Point(1, 1)), Some(Piece::new(Color::White, Kind::Rook)));
    assert_eq!(board.at_point(&Point(2, 1)), Some(Piece::new(Color::White, Kind::Pawn)));
}

#[test]
fn test_move_piece_test_move_to_occupied_by_other_color() {
    let mut board = create_test_board(vec![
        (Point(1, 1), Piece::new(Color::White, Kind::Rook)),
        (Point(2, 1), Piece::new(Color::Black, Kind::Pawn)),
    ]);

    let result: bool = board.move_piece(Point(1, 1), Point(2, 1));

    assert!(result);
    assert_eq!(
        board.at_point(&Point(2, 1)),
        Some(Piece {
            color: Color::White,
            kind: Kind::Rook,
            has_moved: true,
        })
    );

    assert!(board
        .graveyard
        .get(&Color::Black)
        .unwrap()
        .contains(&Piece {
            color: Color::Black,
            kind: Kind::Pawn,
            has_moved: false,
        }));
}

#[test]
fn test_move_piece_test_move_to_occupied_by_other_color_empty_graveyard() {
    let mut board = create_test_board(vec![
        (Point(1, 1), Piece::new(Color::White, Kind::Rook)),
        (Point(2, 1), Piece::new(Color::Black, Kind::Pawn)),
    ]);

    board.graveyard = Graveyard::new();

    board.move_piece(Point(1, 1), Point(2, 1));

    assert!(board.graveyard.contains_key(&Color::Black));
    assert!(!board.graveyard.contains_key(&Color::White));
}

#[test]
fn test_move_piece_test_move_out_of_bounds() {
    let mut board = create_test_board(vec![(Point(1, 1), Piece::new(Color::White, Kind::Rook))]);

    assert!(!board.move_piece(Point(1, 1), Point(0, 1)));
    assert!(!board.move_piece(Point(1, 1), Point(1, 0)));
    assert!(!board.move_piece(Point(1, 1), Point(9, 1)));
    assert!(!board.move_piece(Point(1, 1), Point(1, 9)));
}

#[test]
fn tests_test_move_out_of_bounds() {
    let mut board = create_test_board(vec![(Point(1, 1), Piece::new(Color::White, Kind::Rook))]);

    assert!(!board.move_piece(Point(1, 1), Point(0, 1)));
    assert!(!board.move_piece(Point(1, 1), Point(1, 0)));
    assert!(!board.move_piece(Point(1, 1), Point(9, 1)));
    assert!(!board.move_piece(Point(1, 1), Point(1, 9)));
}

#[test]
fn test_move_piece_test_move_nonexistent_piece() {
    let mut board = create_test_board(vec![]);

    assert!(!board.move_piece(Point(1, 1), Point(2, 1)));
}

#[test]
fn tests_test_move_nonexistent_piece() {
    let mut board = create_test_board(vec![]);

    assert!(!board.move_piece(Point(1, 1), Point(2, 1)));
}

#[test]
fn test_move_piece_test_move_to_source() {
    let mut board = create_test_board(vec![(Point(1, 1), Piece::new(Color::White, Kind::Rook))]);

    assert!(!board.move_piece(Point(1, 1), Point(1, 1)));
}

#[test]
fn test_set_king_position() {
    let mut board = create_test_board(vec![
        (Point(5, 5), Piece::new(Color::White, Kind::King)),
        (Point(7, 7), Piece::new(Color::Black, Kind::King)),
    ]);
    assert_eq!(board.find_king(&Color::White), Point(5, 5));
    assert_eq!(board.find_king(&Color::Black), Point(7, 7));

    board.move_piece(Point(5, 5), Point(6, 4));
    board.move_piece(Point(7, 7), Point(8, 6));

    assert_eq!(board.find_king(&Color::White), Point(6, 4));
    assert_eq!(board.find_king(&Color::Black), Point(8, 6));
}

#[test]
fn test_enpassant_gets_set() {
    let mut board = create_test_board(vec![(Point(1, 1), Piece::new(Color::White, Kind::Pawn))]);

    board.move_piece(Point(1, 1), Point(1, 3));
    assert_eq!(board.enpassant, Some([Point(1, 2), Point(1, 3)]));
}

#[test]
fn test_enpassant_gets_unset() {
    let mut board = create_test_board(vec![(Point(1, 1), Piece::new(Color::White, Kind::Rook))]);

    board.enpassant = Some([Point(8, 6), Point(8, 5)]);
    board.move_piece(Point(1, 1), Point(1, 3));
    assert_eq!(board.enpassant, None);
}

#[test]
fn test_enpassant_removes_target_pawn() {
    let mut board = create_test_board(vec![
        (Point(1, 1), Piece::new(Color::White, Kind::King)),
        (Point(1, 8), Piece::new(Color::Black, Kind::King)),
        (Point(1, 4), moved(Color::White, Kind::Pawn)),
        (Point(2, 4), moved(Color::Black, Kind::Pawn)),
        (Point(7, 5), moved(Color::White, Kind::Pawn)),
        (Point(8, 5), moved(Color::Black, Kind::Pawn)),
    ]);

    board.enpassant = Some([Point(1, 3), Point(1, 4)]);
    board.move_piece(Point(2, 4), Point(1, 3));
    assert_eq!(board.at_point(&Point(1, 4)), None);

    board.enpassant = Some([Point(8, 6), Point(8, 5)]);
    board.move_piece(Point(7, 5), Point(8, 6));
    assert_eq!(board.at_point(&Point(8, 5)), None);
}

#[test]
fn en_passant_only_on_the_skipped_square() {
    let mut board = create_test_board(vec![
        (Point(5, 5), moved(Color::White, Kind::Pawn)),
        (Point(4, 5), moved(Color::Black, Kind::Pawn)),
        (Point(2, 5), moved(Color::Black, Kind::Pawn)),
    ]);
    board.enpassant = Some([Point(4, 6), Point(4, 5)]);
    assert!(!board.is_enpassant_capture(&Point(5, 5), &Point(4, 4)));
    assert!(board.is_enpassant_capture(&Point(5, 5), &Point(4, 6)));
    assert!(!board.is_enpassant_capture(&Point(2, 5), &Point(4, 6)));
    assert!(board.move_piece(Point(5, 5), Point(4, 4)));
    assert_eq!(board.at_point(&Point(4, 5)), Some(moved(Color::Black, Kind::Pawn)));
    assert_eq!(board.graveyard.get(&Color::Black).unwrap(), &vec![]);
}

#[test]
fn no_en_passant_on_own_pawn() {
    let mut board = create_test_board(vec![
        (Point(3, 5), moved(Color::Black, Kind::Pawn)),
        (Point(4, 5), moved(Color::Black, Kind::Pawn)),
    ]);
    board.enpassant = Some([Point(4, 6), Point(4, 5)]);
    assert!(board.move_piece(Point(3, 5), Point(4, 6)));
    assert_eq!(board.at_point(&Point(4, 5)), Some(moved(Color::Black, Kind::Pawn)));
}

#[test]
fn test_castling_king_side() {
    let mut board = create_test_board(vec![
        (Point(5, 1), Piece::new(Color::White, Kind::King)),
        (Point(8, 1), Piece::new(Color::White, Kind::Rook)),
        (Point(5, 8), Piece::new(Color::Black, Kind::King)),
        (Point(8, 8), Piece::new(Color::Black, Kind::Rook)),
    ]);

    board.move_piece(Point(5, 1), Point(7, 1));

    let rook = moved(Color::White, Kind::Rook);
    let king = moved(Color::White, Kind::King);
    assert_eq!(board.at_point(&Point(6, 1)), Some(rook));
    assert_eq!(board.at_point(&Point(7, 1)), Some(king));

    board.move_piece(Point(5, 8), Point(7, 8));

    let rook = moved(Color::Black, Kind::Rook);
    let king = moved(Color::Black, Kind::King);
    assert_eq!(board.at_point(&Point(6, 8)), Some(rook));
    assert_eq!(board.at_point(&Point(7, 8)), Some(king));
}

#[test]
fn test_castling_queen_side() {
    let mut board = create_test_board(vec![
        (Point(5, 1), Piece::new(Color::White, Kind::King)),
        (Point(1, 1), Piece::new(Color::White, Kind::Rook)),
        (Point(5, 8), Piece::new(Color::Black, Kind::King)),
        (Point(1, 8), Piece::new(Color::Black, Kind::Rook)),
    ]);

    board.move_piece(Point(5, 1), Point(3, 1));

    let rook = moved(Color::White, Kind::Rook);
    let king = moved(Color::White, Kind::King);
    assert_eq!(board.at_point(&Point(4, 1)), Some(rook));
    assert_eq!(board.at_point(&Point(3, 1)), Some(king));

    board.move_piece(Point(5, 8), Point(3, 8));

    let rook = moved(Color::Black, Kind::Rook);
    let king = moved(Color::Black, Kind::King);
    assert_eq!(board.at_point(&Point(4, 8)), Some(rook));
    assert_eq!(board.at_point(&Point(3, 8)), Some(king));
}

#[test]
fn test_castling_obstructed() {
    let mut board = create_test_board(vec![
        (Point(5, 1), Piece::new(Color::White, Kind::King)),
        (Point(1, 1), Piece::new(Color::White, Kind::Rook)),
        (Point(2, 1), Piece::new(Color::Black, Kind::Knight)),
        (Point(5, 8), Piece::new(Color::Black, Kind::King)),
        (Point(8, 8), Piece::new(Color::Black, Kind::Rook)),
        (Point(7, 8), Piece::new(Color::White, Kind::Knight)),
    ]);

    assert!(!board.move_piece(Point(5, 1), Point(3, 1)));
    assert!(!board.move_piece(Point(5, 8), Point(7, 8)));
}

#[test]
fn castling_refused_without_rook_or_after_moving() {
    let mut board = create_test_board(vec![
        (Point(5, 1), Piece::new(Color::White, Kind::King)),
        (Point(1, 8), Piece::new(Color::Black, Kind::Rook)),
        (Point(5, 8), moved(Color::Black, Kind::King)),
        (Point(8, 8), Piece::new(Color::Black, Kind::Rook)),
    ]);

    assert!(!board.move_piece(Point(5, 1), Point(7, 1)));
    assert!(!board.move_piece(Point(5, 8), Point(7, 8)));
    assert_eq!(board.at_point(&Point(5, 1)), Some(Piece::new(Color::White, Kind::King)));
    assert_eq!(board.at_point(&Point(5, 8)), Some(moved(Color::Black, Kind::King)));
}

#[test]
fn capture_appends_to_existing_entry() {
    let mut board = create_test_board(vec![
        (Point(1, 1), Piece::new(Color::White, Kind::Rook)),
        (Point(1, 5), Piece::new(Color::Black, Kind::Knight)),
        (Point(3, 5), Piece::new(Color::Black, Kind::Bishop)),
    ]);
    assert!(board.move_piece(Point(1, 1), Point(1, 5)));
    assert!(board.move_piece(Point(1, 5), Point(3, 5)));
    assert_eq!(
        board.graveyard.get(&Color::Black).unwrap(),
        &vec![
            Piece::new(Color::Black, Kind::Knight),
            Piece::new(Color::Black, Kind::Bishop)
        ]
    );
    assert_eq!(board.graveyard.get(&Color::White).unwrap(), &vec![]);
    assert_eq!(board.current.iter().filter(|s| s.is_some()).count(), 1);
}

#[test]
fn double_step_of_moved_pawn_sets_no_marker() {
    let mut board = create_test_board(vec![(Point(2, 2), moved(Color::White, Kind::Pawn))]);
    assert!(board.move_piece(Point(2, 2), Point(2, 4)));
    assert_eq!(board.enpassant, None);
    assert!(!board.is_pawn_double_move(&Point(2, 4), &Point(2, 6)));
    assert!(!board.is_castling(&Point(2, 4), &Point(4, 4)));
}

#[test]
fn capture_from_the_start_leaves_thirty_one() {
    let mut board = chess::board::Board::new();
    let count = |b: &chess::board::Board| b.current.iter().filter(|s| s.is_some()).count();
    assert_eq!(count(&board), 32);
    assert!(board.move_piece(Point(5, 2), Point(5, 4)));
    assert_eq!(count(&board), 32);
    assert!(board.move_piece(Point(4, 1), Point(4, 7)));
    assert_eq!(count(&board), 31);
    assert_eq!(
        board.graveyard.get(&Color::Black).unwrap(),
        &vec![Piece::new(Color::Black, Kind::Pawn)]
    );
}
