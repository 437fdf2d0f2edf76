//! The aggregator: the engine's single public read entry point. It fails
//! closed — an immobilized piece contributes no moves at all — and
//! otherwise dispatches by piece type, exhaustively, to the matching mover.

use vstd::prelude::*;

use crate::board::GameBoard;
use crate::chameleon;
use crate::coordinator;
use crate::immobilizer;
use crate::king;
use crate::longleaper;
use crate::moves::{MoveData, SpecMove};
use crate::pawn;
use crate::piece::{UltimaPiece, UltimaPieceType};
use crate::rankfile::Rankfile;
use crate::withdrawer;

verus! {

/// Every legal move of `piece` standing at `start`: none at all when the
/// piece is immobilized, otherwise exactly its mover's moves.
pub open spec fn all_legal_moves(b: GameBoard, start: Rankfile, piece: UltimaPiece) -> Seq<
    SpecMove,
> {
    if immobilizer::immobilized(b, start, piece) {
        Seq::empty()
    } else {
        match piece.piece_type {
            UltimaPieceType::Chameleon => chameleon::chameleon_moves(b, start, piece.color),
            UltimaPieceType::Coordinator => coordinator::coordinator_moves(b, start, piece.color),
            UltimaPieceType::Immobilizer => immobilizer::immobilizer_moves(b, start),
            UltimaPieceType::King => king::king_moves(b, start, piece.color),
            UltimaPieceType::Longleaper => longleaper::leaper_moves(b, start, piece.color),
            UltimaPieceType::Pawn => pawn::pawn_moves(b, start, piece.color),
            UltimaPieceType::Withdrawer => withdrawer::withdrawer_moves(b, start, piece.color),
        }
    }
}

/// Every legal move of `piece` standing at `start`, with each move's exact
/// capture set. Fails closed: an immobilized piece — one adjacent to an
/// enemy Immobilizer, or an Immobilizer adjacent to an enemy Chameleon —
/// yields the empty list. Performs no mutation.
pub fn get_all_legal_moves(board: &GameBoard, start: Rankfile, piece: UltimaPiece) -> (out: Vec<
    MoveData,
>)
    requires
        board.wf(),
    ensures
        out.deep_view() == all_legal_moves(*board, start, piece),
        immobilizer::immobilized(*board, start, piece) ==> out@.len() == 0,
{
    if immobilizer::is_immobilized(board, start, piece) {
        let out: Vec<MoveData> = Vec::new();
        proof {
            assert(out.deep_view() =~= Seq::<SpecMove>::empty());
        }
        return out;
    }
    let color = piece.color;
    match piece.piece_type {
        UltimaPieceType::Chameleon => chameleon::generate_moves(board, start, color),
        UltimaPieceType::Coordinator => coordinator::move_generator_iter(board, start, color),
        UltimaPieceType::Immobilizer => immobilizer::move_generator_iter(board, start),
        UltimaPieceType::King => king::generate_moves_naive(board, start, color),
        UltimaPieceType::Longleaper => longleaper::generate_moves(board, start, color),
        UltimaPieceType::Pawn => pawn::move_generator_iter(board, start, color),
        UltimaPieceType::Withdrawer => withdrawer::move_generator_iter(board, start, color),
    }
}

} // verus!
