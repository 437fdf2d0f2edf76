//! The Immobilizer: slides along all 8 directions and never captures; its
//! whole effect is the immobilization predicate. A piece adjacent to an
//! enemy Immobilizer is forbidden to move at all; an Immobilizer is also
//! frozen by an adjacent enemy Chameleon, and only by that pairing — the
//! Chameleon freezes no other piece type.

use vstd::prelude::*;

use crate::board::GameBoard;
use crate::moves::{MoveData, SpecMove};
use crate::piece::{PlayerColor, UltimaPiece, UltimaPieceType};
use crate::rankfile::{dirs8_seq, dstep, in_bounds, Direction, Rankfile};
use crate::slider;

verus! {

broadcast use crate::board::lemma_square_at_off_board;

/// Whether the neighbour of `loc` one step in direction `d` freezes the
/// piece: an enemy Immobilizer freezes anything, and an enemy Chameleon
/// freezes an Immobilizer.
pub open spec fn frozen_by_dir(
    b: GameBoard,
    loc: Rankfile,
    piece: UltimaPiece,
    d: Direction,
) -> bool {
    let s = dstep(d);
    let r = loc.rank_idx() + s.0;
    let f = loc.file_idx() + s.1;
    &&& in_bounds(r, f)
    &&& b.square_at(r, f) matches Some(q) && q.color != piece.color && (q.piece_type
        == UltimaPieceType::Immobilizer || (piece.piece_type == UltimaPieceType::Immobilizer
        && q.piece_type == UltimaPieceType::Chameleon))
}

/// Whether the piece at `loc` is immobilized: some neighbour holds an enemy
/// Immobilizer, or the piece is an Immobilizer and some neighbour holds an
/// enemy Chameleon.
pub open spec fn immobilized(b: GameBoard, loc: Rankfile, piece: UltimaPiece) -> bool {
    exists|i: int| 0 <= i < 8 && frozen_by_dir(b, loc, piece, dirs8_seq()[i])
}

/// All moves of an Immobilizer at `start`: one per line-of-sight square in
/// each of the 8 directions, all with empty capture sets. The capture rule
/// never captures, so the slider's colour argument is irrelevant; a fixed
/// colour is passed.
pub open spec fn immobilizer_moves(b: GameBoard, start: Rankfile) -> Seq<SpecMove> {
    slider::slider_moves(b, start, PlayerColor::White, slider::CaptureRule::NoCapture, dirs8_seq())
}

/// Decides whether the piece at `location` is forbidden to move at all:
/// true exactly when a neighbour holds an enemy Immobilizer, or the piece
/// is itself an Immobilizer and a neighbour holds an enemy Chameleon.
pub fn is_immobilized(board: &GameBoard, location: Rankfile, piece: UltimaPiece) -> (out: bool)
    requires
        board.wf(),
    ensures
        out == immobilized(*board, location, piece),
{
    let (r, f) = location.to_signed_coords();
    let dirs = Rankfile::all_directions();
    let mut i: usize = 0;
    while i < 8
        invariant
            0 <= i <= 8,
            board.wf(),
            dirs@ == dirs8_seq(),
            r as int == location.rank_idx(),
            f as int == location.file_idx(),
            in_bounds(r as int, f as int),
            forall|j: int| 0 <= j < i ==> !frozen_by_dir(*board, location, piece, dirs8_seq()[j]),
        decreases 8 - i,
    {
        let d = dirs[i];
        match board.get_square_from_coords(r + d.0, f + d.1) {
            Some(adjacent_piece) => {
                if adjacent_piece.piece_type == UltimaPieceType::Immobilizer && piece.color
                    != adjacent_piece.color {
                    proof {
                        assert(frozen_by_dir(*board, location, piece, dirs8_seq()[i as int]));
                    }
                    return true;
                }
                if piece.piece_type == UltimaPieceType::Immobilizer && adjacent_piece.piece_type
                    == UltimaPieceType::Chameleon && piece.color != adjacent_piece.color {
                    proof {
                        assert(frozen_by_dir(*board, location, piece, dirs8_seq()[i as int]));
                    }
                    return true;
                }
            },
            None => (),
        }
        i = i + 1;
    }
    false
}

/// All moves of an Immobilizer at `start`, one per line-of-sight square,
/// nearest first in each direction, never capturing.
pub fn move_generator_iter(board: &GameBoard, start: Rankfile) -> (out: Vec<MoveData>)
    requires
        board.wf(),
    ensures
        out.deep_view() == immobilizer_moves(*board, start),
{
    let dirs = Rankfile::all_directions();
    slider::generate(board, start, PlayerColor::White, slider::CaptureRule::NoCapture, &dirs)
}

} // verus!
