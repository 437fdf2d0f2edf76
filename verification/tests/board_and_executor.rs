use ultima::{
    execute_move, GameBoard, MoveData, PlayerColor, Rankfile, UltimaPiece, UltimaPieceType,
};

fn rf(r: i8, f: i8) -> Rankfile {
    Rankfile::from(r, f).unwrap()
}

fn piece(piece_type: UltimaPieceType, color: PlayerColor) -> UltimaPiece {
    UltimaPiece { piece_type, color }
}

fn put(board: &mut GameBoard, r: i8, f: i8, t: UltimaPieceType, c: PlayerColor) {
    board.set_square(rf(r, f), Some(piece(t, c)));
}

#[test]
fn empty_board_is_empty() {
    let board = GameBoard::new_empty();
    for r in 0..8i8 {
        for f in 0..8i8 {
            assert!(board.get_square(rf(r, f)).is_none());
        }
    }
    assert!(board.get_king_locs(PlayerColor::White).is_empty());
    assert!(board.get_king_locs(PlayerColor::Black).is_empty());
}

#[test]
fn set_and_get_square_round_trip() {
    let mut board = GameBoard::new_empty();
    put(&mut board, 2, 5, UltimaPieceType::Withdrawer, PlayerColor::Black);
    let got = board.get_square(rf(2, 5)).unwrap();
    assert_eq!(got.piece_type, UltimaPieceType::Withdrawer);
    assert_eq!(got.color, PlayerColor::Black);
    assert!(board.get_square(rf(2, 4)).is_none());
    board.set_square(rf(2, 5), None);
    assert!(board.get_square(rf(2, 5)).is_none());
}

#[test]
fn get_square_from_coords_is_bounds_safe() {
    let board = GameBoard::new_in_start_position();
    assert!(board.get_square_from_coords(-1, 0).is_none());
    assert!(board.get_square_from_coords(0, 8).is_none());
    assert!(board.get_square_from_coords(0, 0).is_some());
}

#[test]
fn start_position_matches_the_reference_layout() {
    let board = GameBoard::new_in_start_position();
    let white_back = [
        UltimaPieceType::Immobilizer,
        UltimaPieceType::Longleaper,
        UltimaPieceType::Chameleon,
        UltimaPieceType::King,
        UltimaPieceType::Withdrawer,
        UltimaPieceType::Chameleon,
        UltimaPieceType::Longleaper,
        UltimaPieceType::Coordinator,
    ];
    let black_back = [
        UltimaPieceType::Coordinator,
        UltimaPieceType::Longleaper,
        UltimaPieceType::Chameleon,
        UltimaPieceType::Withdrawer,
        UltimaPieceType::King,
        UltimaPieceType::Chameleon,
        UltimaPieceType::Longleaper,
        UltimaPieceType::Immobilizer,
    ];
    for f in 0..8i8 {
        let w = board.get_square(rf(0, f)).unwrap();
        assert_eq!(w.piece_type, white_back[f as usize]);
        assert_eq!(w.color, PlayerColor::White);
        let b = board.get_square(rf(7, f)).unwrap();
        assert_eq!(b.piece_type, black_back[f as usize]);
        assert_eq!(b.color, PlayerColor::Black);
        let wp = board.get_square(rf(1, f)).unwrap();
        assert_eq!(wp.piece_type, UltimaPieceType::Pawn);
        assert_eq!(wp.color, PlayerColor::White);
        let bp = board.get_square(rf(6, f)).unwrap();
        assert_eq!(bp.piece_type, UltimaPieceType::Pawn);
        assert_eq!(bp.color, PlayerColor::Black);
    }
    for r in 2..6i8 {
        for f in 0..8i8 {
            assert!(board.get_square(rf(r, f)).is_none());
        }
    }
    assert_eq!(board.get_king_locs(PlayerColor::White), &vec![rf(0, 3)]);
    assert_eq!(board.get_king_locs(PlayerColor::Black), &vec![rf(7, 4)]);
}

#[test]
fn line_of_sight_stops_before_the_first_occupied_square() {
    let mut board = GameBoard::new_empty();
    put(&mut board, 0, 0, UltimaPieceType::Withdrawer, PlayerColor::White);
    put(&mut board, 3, 0, UltimaPieceType::Pawn, PlayerColor::Black);
    let open_file: Vec<Rankfile> = board.los(rf(0, 0), (0, 1));
    assert_eq!(
        open_file,
        vec![rf(0, 1), rf(0, 2), rf(0, 3), rf(0, 4), rf(0, 5), rf(0, 6), rf(0, 7)]
    );
    let blocked: Vec<Rankfile> = board.los(rf(0, 0), (1, 0));
    assert_eq!(blocked, vec![rf(1, 0), rf(2, 0)]);
}

#[test]
fn execute_move_clears_captures_then_moves_the_piece() {
    let mut board = GameBoard::new_empty();
    put(&mut board, 3, 3, UltimaPieceType::Pawn, PlayerColor::White);
    put(&mut board, 5, 3, UltimaPieceType::Pawn, PlayerColor::Black);
    execute_move(
        &mut board,
        MoveData::new(rf(3, 3), rf(4, 3), vec![rf(5, 3)]),
    );
    assert!(board.get_square(rf(3, 3)).is_none());
    assert!(board.get_square(rf(5, 3)).is_none());
    let moved = board.get_square(rf(4, 3)).unwrap();
    assert_eq!(moved.piece_type, UltimaPieceType::Pawn);
    assert_eq!(moved.color, PlayerColor::White);
}

#[test]
fn undo_restores_the_mover_but_not_the_captured() {
    // A King captures an adjacent enemy Pawn; applying the exact inverse
    // move (no recaptures) brings the King home, but the Pawn stays gone.
    let mut board = GameBoard::new_empty();
    put(&mut board, 3, 3, UltimaPieceType::King, PlayerColor::White);
    put(&mut board, 4, 4, UltimaPieceType::Pawn, PlayerColor::Black);
    execute_move(&mut board, MoveData::new(rf(3, 3), rf(4, 4), vec![rf(4, 4)]));
    let landed = board.get_square(rf(4, 4)).unwrap();
    assert_eq!(landed.piece_type, UltimaPieceType::King);
    execute_move(&mut board, MoveData::new(rf(4, 4), rf(3, 3), vec![]));
    let home = board.get_square(rf(3, 3)).unwrap();
    assert_eq!(home.piece_type, UltimaPieceType::King);
    assert_eq!(home.color, PlayerColor::White);
    assert!(
        board.get_square(rf(4, 4)).is_none(),
        "capture is destructive: the Pawn is not restored"
    );
}

#[test]
fn undo_leaves_every_captured_square_empty() {
    let mut board = GameBoard::new_empty();
    put(&mut board, 0, 0, UltimaPieceType::Longleaper, PlayerColor::White);
    put(&mut board, 1, 0, UltimaPieceType::Pawn, PlayerColor::Black);
    put(&mut board, 3, 0, UltimaPieceType::Pawn, PlayerColor::Black);
    execute_move(
        &mut board,
        MoveData::new(rf(0, 0), rf(4, 0), vec![rf(1, 0), rf(3, 0)]),
    );
    execute_move(&mut board, MoveData::new(rf(4, 0), rf(0, 0), vec![]));
    let home = board.get_square(rf(0, 0)).unwrap();
    assert_eq!(home.piece_type, UltimaPieceType::Longleaper);
    assert!(board.get_square(rf(1, 0)).is_none());
    assert!(board.get_square(rf(3, 0)).is_none());
    assert!(board.get_square(rf(4, 0)).is_none());
}

#[test]
fn king_location_cache_is_construction_time_only() {
    // The caches are primed at construction and deliberately not updated
    // by writes or move application.
    let mut board = GameBoard::new_in_start_position();
    execute_move(&mut board, MoveData::new(rf(0, 3), rf(2, 3), vec![]));
    assert!(board.get_square(rf(0, 3)).is_none());
    let king = board.get_square(rf(2, 3)).unwrap();
    assert_eq!(king.piece_type, UltimaPieceType::King);
    assert_eq!(
        board.get_king_locs(PlayerColor::White),
        &vec![rf(0, 3)],
        "the cache still reports the construction-time square"
    );
}

#[test]
fn executing_a_move_on_the_start_position() {
    let mut board = GameBoard::new_in_start_position();
    let b2 = rf(1, 1);
    let pawn = board.get_square(b2).unwrap();
    let moves = ultima::move_validation::get_all_legal_moves(&board, b2, pawn);
    let chosen = moves
        .iter()
        .find(|m| m.end == rf(3, 1))
        .expect("b4 is reachable from b2");
    execute_move(&mut board, chosen.clone());
    assert!(board.get_square(b2).is_none());
    let moved = board.get_square(rf(3, 1)).unwrap();
    assert_eq!(moved.piece_type, UltimaPieceType::Pawn);
    assert_eq!(moved.color, PlayerColor::White);
}
