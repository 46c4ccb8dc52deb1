use chess::coordinates::Position;
use chess::game::{Game, MoveError};
use chess::moves::{valid_destinations, Castling, Move, MoveRequest, NormalMove, Promotion};
use chess::pieces::{Color, Piece, PieceType};

fn pos(text: &str) -> Position {
    Position::from_str(text).unwrap()
}

fn play(game: Game, from: &str, to: &str) -> Game {
    game.perform_move_request(MoveRequest::new(pos(from), pos(to), None))
        .unwrap_or_else(|| panic!("{}-{} was refused", from, to))
}

fn play_all(moves: &[(&str, &str)]) -> Game {
    let mut game = Game::new();
    for (from, to) in moves {
        game = play(game, from, to);
    }
    game
}

fn sorted(mut v: Vec<Position>) -> Vec<Position> {
    v.sort_by_key(|p| (p.x, p.y));
    v
}

#[test]
fn color_other_flips() {
    assert_eq!(Color::White.other(), Color::Black);
    assert_eq!(Color::Black.other(), Color::White);
}

#[test]
fn piece_new_is_unmoved() {
    let p = Piece::new(PieceType::Queen, Color::Black);
    assert_eq!(p, Piece { piece_type: PieceType::Queen, color: Color::Black, has_moved: false });
}

#[test]
fn initial_layout() {
    let game = Game::new();
    assert_eq!(game.piece_at(pos("E1")), Some(Piece::new(PieceType::King, Color::White)));
    assert_eq!(game.piece_at(pos("D8")), Some(Piece::new(PieceType::Queen, Color::Black)));
    assert_eq!(game.piece_at(pos("A1")), Some(Piece::new(PieceType::Rook, Color::White)));
    assert_eq!(game.piece_at(pos("G8")), Some(Piece::new(PieceType::Knight, Color::Black)));
    assert_eq!(game.piece_at(pos("C1")), Some(Piece::new(PieceType::Bishop, Color::White)));
    assert_eq!(game.piece_at(pos("H7")), Some(Piece::new(PieceType::Pawn, Color::Black)));
    assert_eq!(game.piece_at(pos("E4")), None);
    assert_eq!(game.piece_at(Position { x: 9, y: 0 }), None);
    let mut count = 0;
    for x in 0..8 {
        for y in 0..8 {
            if game.piece_at(Position::new(x, y).unwrap()).is_some() {
                count += 1;
            }
        }
    }
    assert_eq!(count, 32);
    assert_eq!(game.active_color(), Color::White);
    assert!(game.last_move.is_none());
    assert_eq!(game.winner(), None);
    assert!(!game.is_king_in_check(Color::White));
    assert!(!game.is_king_in_check(Color::Black));
}

#[test]
fn initial_pawn_and_knight_destinations() {
    let game = Game::new();
    assert_eq!(sorted(valid_destinations(pos("A2"), &game)), vec![pos("A3"), pos("A4")]);
    assert_eq!(sorted(valid_destinations(pos("B1"), &game)), vec![pos("A3"), pos("C3")]);
    assert_eq!(valid_destinations(pos("E1"), &game), vec![]);
    assert_eq!(valid_destinations(pos("D1"), &game), vec![]);
    assert_eq!(valid_destinations(pos("E4"), &game), vec![]);
    assert_eq!(sorted(valid_destinations(pos("G8"), &game)), vec![pos("F6"), pos("H6")]);
}

#[test]
fn move_request_switches_side() {
    let game = play(Game::new(), "E2", "E4");
    assert_eq!(game.active_color(), Color::Black);
    assert_eq!(game.piece_at(pos("E2")), None);
    assert_eq!(
        game.piece_at(pos("E4")),
        Some(Piece { piece_type: PieceType::Pawn, color: Color::White, has_moved: true })
    );
    let game = play(game, "E7", "E5");
    assert_eq!(game.active_color(), Color::White);
}

#[test]
fn move_request_refuses_illegal_requests() {
    let game = Game::new();
    let req = |a: &str, b: &str| MoveRequest::new(pos(a), pos(b), None);
    assert!(game.perform_move_request(req("E7", "E5")).is_none());
    assert!(game.perform_move_request(req("E4", "E5")).is_none());
    assert!(game.perform_move_request(req("E2", "E5")).is_none());
    assert!(game.perform_move_request(req("A1", "A3")).is_none());
    assert!(req("E2", "E5").to_move(&game).is_none());
    assert!(matches!(
        req("E2", "E4").to_move(&game),
        Some(Move::NormalMove(NormalMove { throwing: None, .. }))
    ));
}

#[test]
fn capture_records_taken_piece() {
    let game = play_all(&[("E2", "E4"), ("D7", "D5")]);
    let req = MoveRequest::new(pos("E4"), pos("D5"), None);
    match req.to_move(&game) {
        Some(Move::NormalMove(m)) => {
            assert_eq!(m.throwing, Some(Piece { piece_type: PieceType::Pawn, color: Color::Black, has_moved: true }));
        }
        other => panic!("unexpected {:?}", other),
    }
    let game = play(game, "E4", "D5");
    assert_eq!(game.piece_at(pos("D5")).unwrap().color, Color::White);
}

#[test]
fn en_passant_removes_the_passed_pawn() {
    let game = play_all(&[("E2", "E4"), ("A7", "A6"), ("E4", "E5"), ("D7", "D5")]);
    let dests = valid_destinations(pos("E5"), &game);
    assert!(dests.contains(&pos("D6")));
    assert!(dests.contains(&pos("E6")));
    assert!(matches!(
        MoveRequest::new(pos("E5"), pos("D6"), None).to_move(&game),
        Some(Move::EnPassante(_))
    ));
    let game = play(game, "E5", "D6");
    assert_eq!(game.piece_at(pos("D5")), None);
    assert_eq!(game.piece_at(pos("E5")), None);
    assert_eq!(game.piece_at(pos("D6")).unwrap().piece_type, PieceType::Pawn);
    assert_eq!(game.piece_at(pos("D6")).unwrap().color, Color::White);
    assert_eq!(game.active_color(), Color::Black);
}

#[test]
fn en_passant_only_right_after_the_double_step() {
    let game = play_all(&[
        ("E2", "E4"),
        ("A7", "A6"),
        ("E4", "E5"),
        ("D7", "D5"),
        ("H2", "H3"),
        ("A6", "A5"),
    ]);
    assert!(!valid_destinations(pos("E5"), &game).contains(&pos("D6")));
}

#[test]
fn castling_kingside() {
    let game = play_all(&[
        ("E2", "E4"),
        ("E7", "E5"),
        ("G1", "F3"),
        ("B8", "C6"),
        ("F1", "C4"),
        ("G8", "F6"),
    ]);
    assert!(valid_destinations(pos("E1"), &game).contains(&pos("G1")));
    assert!(matches!(
        MoveRequest::new(pos("E1"), pos("G1"), None).to_move(&game),
        Some(Move::Castling(Castling { .. }))
    ));
    let game = play(game, "E1", "G1");
    assert_eq!(
        game.piece_at(pos("G1")),
        Some(Piece { piece_type: PieceType::King, color: Color::White, has_moved: true })
    );
    assert_eq!(
        game.piece_at(pos("F1")),
        Some(Piece { piece_type: PieceType::Rook, color: Color::White, has_moved: true })
    );
    assert_eq!(game.piece_at(pos("H1")), None);
    assert_eq!(game.piece_at(pos("E1")), None);
    assert_eq!(game.active_color(), Color::Black);
}

#[test]
fn no_castling_after_king_returns_home() {
    let game = play_all(&[
        ("E2", "E4"),
        ("E7", "E5"),
        ("G1", "F3"),
        ("B8", "C6"),
        ("F1", "C4"),
        ("G8", "F6"),
        ("E1", "E2"),
        ("E8", "E7"),
        ("E2", "E1"),
        ("E7", "E8"),
    ]);
    let dests = valid_destinations(pos("E1"), &game);
    assert!(!dests.contains(&pos("G1")));
    assert!(dests.contains(&pos("F1")));
    assert!(game.perform_move_request(MoveRequest::new(pos("E1"), pos("G1"), None)).is_none());
}

#[test]
fn pinned_piece_cannot_expose_king() {
    let game = play_all(&[("E2", "E4"), ("E7", "E5"), ("D2", "D4"), ("F8", "B4")]);
    assert!(game.is_king_in_check(Color::White));
    assert!(!game.is_king_in_check(Color::Black));
    // Only moves that block or escape the bishop's check are allowed.
    assert_eq!(valid_destinations(pos("A2"), &game), vec![]);
    assert_eq!(sorted(valid_destinations(pos("C2"), &game)), vec![pos("C3")]);
    assert_eq!(sorted(valid_destinations(pos("E1"), &game)), vec![pos("E2")]);
}

#[test]
fn fools_mate_is_won_by_black() {
    let game = play_all(&[("F2", "F3"), ("E7", "E5"), ("G2", "G4"), ("D8", "H4")]);
    assert!(game.is_king_in_check(Color::White));
    assert_eq!(game.active_color(), Color::White);
    assert_eq!(game.winner(), Some(Color::Black));
}

#[test]
fn stalemate_also_reports_a_winner() {
    let game = play_all(&[
        ("E2", "E3"),
        ("A7", "A5"),
        ("D1", "H5"),
        ("A8", "A6"),
        ("H5", "A5"),
        ("H7", "H5"),
        ("H2", "H4"),
        ("A6", "H6"),
        ("A5", "C7"),
        ("F7", "F6"),
        ("C7", "D7"),
        ("E8", "F7"),
        ("D7", "B7"),
        ("D8", "D3"),
        ("B7", "B8"),
        ("D3", "H7"),
        ("B8", "C8"),
        ("F7", "G6"),
        ("C8", "E6"),
    ]);
    assert_eq!(game.active_color(), Color::Black);
    assert!(!game.is_king_in_check(Color::Black));
    assert_eq!(game.winner(), Some(Color::White));
}

#[test]
fn perform_move_errors() {
    let game = Game::new();
    let promotion = Move::Promotion(Promotion {
        origin: pos("A2"),
        destination: pos("A3"),
        new_piece: Piece::new(PieceType::Queen, Color::White),
    });
    assert_eq!(game.perform_move(promotion).unwrap_err(), MoveError::PromotionUnsupported);
    let empty = Move::NormalMove(NormalMove { origin: pos("E4"), destination: pos("E5"), throwing: None });
    assert_eq!(game.perform_move(empty).unwrap_err(), MoveError::MissingPiece);
    let castle_missing_rook = Move::Castling(Castling {
        king_origin: pos("E1"),
        king_destination: pos("C1"),
        rook_origin: pos("E4"),
        rook_destination: pos("D1"),
    });
    assert_eq!(game.perform_move(castle_missing_rook).unwrap_err(), MoveError::MissingPiece);
}

#[test]
fn perform_move_marks_the_mover() {
    let game = Game::new();
    let m = Move::NormalMove(NormalMove { origin: pos("G1"), destination: pos("F3"), throwing: None });
    let after = game.perform_move(m).unwrap();
    assert_eq!(after.piece_at(pos("G1")), None);
    assert!(after.piece_at(pos("F3")).unwrap().has_moved);
    assert_eq!(after.active_color(), Color::Black);
    assert!(matches!(after.previous_move(), Some(Move::NormalMove(_))));
    // The original snapshot is untouched.
    assert!(game.piece_at(pos("G1")).is_some());
}

#[test]
fn displacements_and_captures() {
    let normal = Move::NormalMove(NormalMove {
        origin: pos("E4"),
        destination: pos("D5"),
        throwing: Some(Piece::new(PieceType::Pawn, Color::Black)),
    });
    assert_eq!(normal.displacements(), vec![(pos("E4"), pos("D5"))]);
    assert_eq!(normal.captured_at(), Some(pos("D5")));
    assert_eq!(normal.destination(), pos("D5"));
    let quiet = Move::NormalMove(NormalMove { origin: pos("E2"), destination: pos("E4"), throwing: None });
    assert_eq!(quiet.captured_at(), None);
    let castle = Move::Castling(Castling {
        king_origin: pos("E1"),
        king_destination: pos("G1"),
        rook_origin: pos("H1"),
        rook_destination: pos("F1"),
    });
    assert_eq!(castle.displacements(), vec![(pos("E1"), pos("G1")), (pos("H1"), pos("F1"))]);
    assert_eq!(castle.captured_at(), None);
    assert_eq!(castle.destination(), pos("G1"));
    let game = play_all(&[("E2", "E4"), ("A7", "A6"), ("E4", "E5"), ("D7", "D5"), ("E5", "D6")]);
    let last = game.previous_move().unwrap();
    assert_eq!(last.captured_at(), Some(pos("D5")));
    assert_eq!(last.displacements(), vec![(pos("E5"), pos("D6"))]);
}
