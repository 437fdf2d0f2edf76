use ultima::move_validation::get_all_legal_moves;
use ultima::{
    GameBoard, MoveData, PlayerColor, Rankfile, UltimaPiece, UltimaPieceType,
};

fn rf(r: i8, f: i8) -> Rankfile {
    Rankfile::from(r, f).unwrap()
}

fn piece(piece_type: UltimaPieceType, color: PlayerColor) -> UltimaPiece {
    UltimaPiece { piece_type, color }
}

fn put(board: &mut GameBoard, r: i8, f: i8, t: UltimaPieceType, c: PlayerColor) {
    board.set_square(rf(r, f), Some(piece(t, c)));
}

fn find_move<'a>(moves: &'a [MoveData], r: i8, f: i8) -> Option<&'a MoveData> {
    moves.iter().find(|m| m.end == rf(r, f))
}

#[test]
fn immobilized_piece_has_no_moves() {
    let mut board = GameBoard::new_empty();
    put(&mut board, 3, 3, UltimaPieceType::Pawn, PlayerColor::White);
    put(&mut board, 4, 3, UltimaPieceType::Immobilizer, PlayerColor::Black);
    let moves = get_all_legal_moves(
        &board,
        rf(3, 3),
        piece(UltimaPieceType::Pawn, PlayerColor::White),
    );
    assert!(moves.is_empty());
}

#[test]
fn chameleon_freezes_only_immobilizers() {
    let mut board = GameBoard::new_empty();
    put(&mut board, 3, 3, UltimaPieceType::Immobilizer, PlayerColor::White);
    put(&mut board, 4, 4, UltimaPieceType::Chameleon, PlayerColor::Black);
    let frozen = get_all_legal_moves(
        &board,
        rf(3, 3),
        piece(UltimaPieceType::Immobilizer, PlayerColor::White),
    );
    assert!(frozen.is_empty());

    let mut board = GameBoard::new_empty();
    put(&mut board, 3, 3, UltimaPieceType::Pawn, PlayerColor::White);
    put(&mut board, 4, 4, UltimaPieceType::Chameleon, PlayerColor::Black);
    let moves = get_all_legal_moves(
        &board,
        rf(3, 3),
        piece(UltimaPieceType::Pawn, PlayerColor::White),
    );
    assert!(!moves.is_empty());
}

#[test]
fn enemy_immobilizers_freeze_each_other() {
    let mut board = GameBoard::new_empty();
    put(&mut board, 3, 3, UltimaPieceType::Immobilizer, PlayerColor::White);
    put(&mut board, 4, 4, UltimaPieceType::Immobilizer, PlayerColor::Black);
    assert!(ultima::immobilizer::is_immobilized(
        &board,
        rf(3, 3),
        piece(UltimaPieceType::Immobilizer, PlayerColor::White)
    ));
    assert!(ultima::immobilizer::is_immobilized(
        &board,
        rf(4, 4),
        piece(UltimaPieceType::Immobilizer, PlayerColor::Black)
    ));
}

#[test]
fn friendly_immobilizer_does_not_freeze() {
    let mut board = GameBoard::new_empty();
    put(&mut board, 3, 3, UltimaPieceType::Pawn, PlayerColor::White);
    put(&mut board, 4, 3, UltimaPieceType::Immobilizer, PlayerColor::White);
    let moves = get_all_legal_moves(
        &board,
        rf(3, 3),
        piece(UltimaPieceType::Pawn, PlayerColor::White),
    );
    assert!(!moves.is_empty());
}

#[test]
fn pawn_custodial_capture_needs_the_far_friend() {
    // White Pawn d4, Black Pawn d6, White Pawn d7: moving to d5 flanks the
    // Black Pawn and captures d6.
    let mut board = GameBoard::new_empty();
    put(&mut board, 3, 3, UltimaPieceType::Pawn, PlayerColor::White);
    put(&mut board, 5, 3, UltimaPieceType::Pawn, PlayerColor::Black);
    put(&mut board, 6, 3, UltimaPieceType::Pawn, PlayerColor::White);
    let moves = get_all_legal_moves(
        &board,
        rf(3, 3),
        piece(UltimaPieceType::Pawn, PlayerColor::White),
    );
    let to_d5 = find_move(&moves, 4, 3).expect("d5 must be a destination");
    assert_eq!(to_d5.captures, vec![rf(5, 3)]);

    // Without the White Pawn at d7 the same move captures nothing.
    let mut board = GameBoard::new_empty();
    put(&mut board, 3, 3, UltimaPieceType::Pawn, PlayerColor::White);
    put(&mut board, 5, 3, UltimaPieceType::Pawn, PlayerColor::Black);
    let moves = get_all_legal_moves(
        &board,
        rf(3, 3),
        piece(UltimaPieceType::Pawn, PlayerColor::White),
    );
    let to_d5 = find_move(&moves, 4, 3).expect("d5 must be a destination");
    assert!(to_d5.captures.is_empty());
}

#[test]
fn pawn_moves_only_orthogonally_onto_empty_squares() {
    let mut board = GameBoard::new_empty();
    put(&mut board, 3, 3, UltimaPieceType::Pawn, PlayerColor::White);
    let moves = get_all_legal_moves(
        &board,
        rf(3, 3),
        piece(UltimaPieceType::Pawn, PlayerColor::White),
    );
    // 7 squares on the file plus 7 on the rank.
    assert_eq!(moves.len(), 14);
    assert!(find_move(&moves, 4, 4).is_none());
    for m in &moves {
        let (r, f) = m.end.to_signed_coords();
        assert!(r == 3 || f == 3);
        assert!(m.captures.is_empty());
    }
}

#[test]
fn coordinator_intercepts_on_king_rank_and_file() {
    // White Coordinator on a1, White King on d1 (from the start-position
    // cache): moving to a5 proposes d5 and a1.
    let mut board = GameBoard::new_in_start_position();
    board.set_square(rf(0, 0), Some(piece(UltimaPieceType::Coordinator, PlayerColor::White)));
    board.set_square(rf(1, 0), None);
    let moves = get_all_legal_moves(
        &board,
        rf(0, 0),
        piece(UltimaPieceType::Coordinator, PlayerColor::White),
    );
    let to_a5 = find_move(&moves, 4, 0).expect("a5 must be a destination");
    assert_eq!(to_a5.captures, vec![rf(4, 3), rf(0, 0)]);
}

#[test]
fn coordinator_capture_set_never_contains_its_own_destination() {
    // White Coordinator on h1 moving along the King's rank to g1 (King on
    // d1): the king-rank/destination-file intersection is g1 itself, which
    // is left out; only d1, the destination-rank/king-file intersection,
    // remains. Only the King captures its own destination square.
    let mut board = GameBoard::new_in_start_position();
    board.set_square(rf(0, 7), Some(piece(UltimaPieceType::Coordinator, PlayerColor::White)));
    board.set_square(rf(0, 6), None);
    let moves = get_all_legal_moves(
        &board,
        rf(0, 7),
        piece(UltimaPieceType::Coordinator, PlayerColor::White),
    );
    let to_g1 = find_move(&moves, 0, 6).expect("g1 must be a destination");
    assert_eq!(to_g1.captures, vec![rf(0, 3)]);
    assert!(!to_g1.captures.contains(&rf(0, 6)));
}

#[test]
fn coordinator_without_tracked_kings_captures_nothing() {
    let mut board = GameBoard::new_empty();
    put(&mut board, 3, 3, UltimaPieceType::Coordinator, PlayerColor::White);
    let moves = get_all_legal_moves(
        &board,
        rf(3, 3),
        piece(UltimaPieceType::Coordinator, PlayerColor::White),
    );
    assert!(!moves.is_empty());
    for m in &moves {
        assert!(m.captures.is_empty());
    }
}

#[test]
fn longleaper_chain_captures_accumulate() {
    // White Longleaper a1; Black pieces on a2 and a4, with empty squares
    // between and beyond: each landing deeper along the file captures
    // every enemy leapt so far.
    let mut board = GameBoard::new_empty();
    put(&mut board, 0, 0, UltimaPieceType::Longleaper, PlayerColor::White);
    put(&mut board, 1, 0, UltimaPieceType::Pawn, PlayerColor::Black);
    put(&mut board, 3, 0, UltimaPieceType::Pawn, PlayerColor::Black);
    let moves = get_all_legal_moves(
        &board,
        rf(0, 0),
        piece(UltimaPieceType::Longleaper, PlayerColor::White),
    );
    let to_a3 = find_move(&moves, 2, 0).expect("a3 must be a landing");
    assert_eq!(to_a3.captures, vec![rf(1, 0)]);
    let to_a5 = find_move(&moves, 4, 0).expect("a5 must be a landing");
    assert_eq!(to_a5.captures, vec![rf(1, 0), rf(3, 0)]);
    let to_a6 = find_move(&moves, 5, 0).expect("a6 must be a landing");
    assert_eq!(to_a6.captures, vec![rf(1, 0), rf(3, 0)]);
    let to_a8 = find_move(&moves, 7, 0).expect("a8 must be a landing");
    assert_eq!(to_a8.captures, vec![rf(1, 0), rf(3, 0)]);
    assert!(find_move(&moves, 1, 0).is_none());
    assert!(find_move(&moves, 3, 0).is_none());
}

#[test]
fn longleaper_blocked_by_adjacent_enemies() {
    let mut board = GameBoard::new_empty();
    put(&mut board, 0, 0, UltimaPieceType::Longleaper, PlayerColor::White);
    put(&mut board, 1, 0, UltimaPieceType::Pawn, PlayerColor::Black);
    put(&mut board, 2, 0, UltimaPieceType::Pawn, PlayerColor::Black);
    let moves = get_all_legal_moves(
        &board,
        rf(0, 0),
        piece(UltimaPieceType::Longleaper, PlayerColor::White),
    );
    for m in &moves {
        let (_, f) = m.end.to_signed_coords();
        assert_ne!(f, 0, "no landing square exists past two adjacent enemies");
    }
}

#[test]
fn longleaper_blocked_by_friend() {
    let mut board = GameBoard::new_empty();
    put(&mut board, 0, 0, UltimaPieceType::Longleaper, PlayerColor::White);
    put(&mut board, 2, 0, UltimaPieceType::Pawn, PlayerColor::White);
    let moves = get_all_legal_moves(
        &board,
        rf(0, 0),
        piece(UltimaPieceType::Longleaper, PlayerColor::White),
    );
    let on_file: Vec<_> = moves
        .iter()
        .filter(|m| m.end.to_signed_coords().1 == 0)
        .collect();
    assert_eq!(on_file.len(), 1);
    assert_eq!(on_file[0].end, rf(1, 0));
}

#[test]
fn withdrawer_captures_only_when_moving_away() {
    // White Withdrawer d4, Black Pawn c4. Moving east abandons the pawn's
    // adjacency and captures it; moving to an adjacent-again square does
    // not.
    let mut board = GameBoard::new_empty();
    put(&mut board, 3, 3, UltimaPieceType::Withdrawer, PlayerColor::White);
    put(&mut board, 3, 2, UltimaPieceType::Pawn, PlayerColor::Black);
    let moves = get_all_legal_moves(
        &board,
        rf(3, 3),
        piece(UltimaPieceType::Withdrawer, PlayerColor::White),
    );
    let away = find_move(&moves, 3, 4).expect("e4 must be a destination");
    assert_eq!(away.captures, vec![rf(3, 2)]);
    let still_adjacent = find_move(&moves, 4, 3).expect("d5 must be a destination");
    assert!(still_adjacent.captures.is_empty());
    let far = find_move(&moves, 3, 7).expect("h4 must be a destination");
    assert_eq!(far.captures, vec![rf(3, 2)]);
}

#[test]
fn immobilizer_never_captures() {
    let mut board = GameBoard::new_empty();
    put(&mut board, 3, 3, UltimaPieceType::Immobilizer, PlayerColor::White);
    put(&mut board, 3, 2, UltimaPieceType::Pawn, PlayerColor::Black);
    let moves = get_all_legal_moves(
        &board,
        rf(3, 3),
        piece(UltimaPieceType::Immobilizer, PlayerColor::White),
    );
    assert!(!moves.is_empty());
    for m in &moves {
        assert!(m.captures.is_empty());
    }
}

#[test]
fn king_captures_by_landing_on_enemies_only() {
    let mut board = GameBoard::new_empty();
    put(&mut board, 3, 3, UltimaPieceType::King, PlayerColor::White);
    put(&mut board, 4, 3, UltimaPieceType::Pawn, PlayerColor::Black);
    put(&mut board, 4, 4, UltimaPieceType::Pawn, PlayerColor::White);
    let moves = get_all_legal_moves(
        &board,
        rf(3, 3),
        piece(UltimaPieceType::King, PlayerColor::White),
    );
    assert_eq!(moves.len(), 7);
    let capture = find_move(&moves, 4, 3).expect("the enemy square is a destination");
    assert_eq!(capture.captures, vec![rf(4, 3)]);
    assert!(find_move(&moves, 4, 4).is_none());
    let quiet = find_move(&moves, 2, 2).expect("an empty neighbour is a destination");
    assert!(quiet.captures.is_empty());
}

#[test]
fn chameleon_captures_adjacent_enemy_king() {
    let mut board = GameBoard::new_empty();
    put(&mut board, 3, 3, UltimaPieceType::Chameleon, PlayerColor::White);
    put(&mut board, 4, 4, UltimaPieceType::King, PlayerColor::Black);
    let moves = get_all_legal_moves(
        &board,
        rf(3, 3),
        piece(UltimaPieceType::Chameleon, PlayerColor::White),
    );
    let capture = find_move(&moves, 4, 4).expect("the enemy King square is a destination");
    assert_eq!(capture.captures, vec![rf(4, 4)]);
    let dests: Vec<_> = moves.iter().filter(|m| m.end == rf(4, 4)).collect();
    assert_eq!(dests.len(), 1, "the destination appears exactly once");
}

#[test]
fn chameleon_never_captures_chameleons_or_immobilizers() {
    let mut board = GameBoard::new_empty();
    put(&mut board, 3, 3, UltimaPieceType::Chameleon, PlayerColor::White);
    put(&mut board, 4, 4, UltimaPieceType::Chameleon, PlayerColor::Black);
    put(&mut board, 2, 3, UltimaPieceType::Immobilizer, PlayerColor::Black);
    let moves = get_all_legal_moves(
        &board,
        rf(3, 3),
        piece(UltimaPieceType::Chameleon, PlayerColor::White),
    );
    assert!(find_move(&moves, 4, 4).is_none());
    assert!(find_move(&moves, 2, 3).is_none());
}

#[test]
fn chameleon_slides_to_empty_squares_without_capture() {
    let mut board = GameBoard::new_empty();
    put(&mut board, 3, 3, UltimaPieceType::Chameleon, PlayerColor::White);
    let moves = get_all_legal_moves(
        &board,
        rf(3, 3),
        piece(UltimaPieceType::Chameleon, PlayerColor::White),
    );
    assert_eq!(moves.len(), 27);
    for m in &moves {
        assert!(m.captures.is_empty());
    }
}

#[test]
fn merge_unions_capture_sets_for_a_shared_destination() {
    // Two proposals for the same destination with different capture sets
    // merge into one move whose capture set is the union.
    let start = rf(3, 3);
    let shared_end = rf(5, 5);
    let mut moves = vec![MoveData::new(start, shared_end, vec![rf(4, 4)])];
    let extension = vec![
        MoveData::new(start, shared_end, vec![rf(5, 4)]),
        MoveData::new(start, rf(6, 6), vec![]),
    ];
    ultima::chameleon::merge_moves(&mut moves, &extension);
    assert_eq!(moves.len(), 2);
    assert_eq!(moves[0].end, shared_end);
    assert_eq!(moves[0].captures, vec![rf(4, 4), rf(5, 4)]);
    assert_eq!(moves[1].end, rf(6, 6));
    assert!(moves[1].captures.is_empty());
}

#[test]
fn merge_drops_duplicate_capture_squares() {
    let start = rf(3, 3);
    let shared_end = rf(5, 5);
    let mut moves = vec![MoveData::new(start, shared_end, vec![rf(4, 4), rf(2, 2)])];
    let extension = vec![MoveData::new(start, shared_end, vec![rf(2, 2), rf(4, 4)])];
    ultima::chameleon::merge_moves(&mut moves, &extension);
    assert_eq!(moves.len(), 1);
    assert_eq!(moves[0].captures, vec![rf(4, 4), rf(2, 2)]);
}

#[test]
fn start_position_pawn_at_b2_has_four_moves() {
    let board = GameBoard::new_in_start_position();
    let b2 = rf(1, 1);
    let pawn = board.get_square(b2).expect("b2 holds the White b-Pawn");
    assert_eq!(pawn.piece_type, UltimaPieceType::Pawn);
    assert_eq!(pawn.color, PlayerColor::White);
    let moves = get_all_legal_moves(&board, b2, pawn);
    assert_eq!(moves.len(), 4);
    for r in 2..6i8 {
        let m = find_move(&moves, r, 1).expect("every empty square up the file is reachable");
        assert!(m.captures.is_empty());
    }
}
