//! The Pawn: slides along the 4 orthogonal directions and captures
//! custodially. After moving to a destination, for each of the 8 directions
//! the square two steps beyond the destination is examined; if it holds a
//! piece of the mover's own colour and the square one step beyond holds an
//! enemy piece, that enemy — flanked between destination and friend — is
//! captured.

use vstd::prelude::*;

use crate::board::GameBoard;
use crate::moves::{MoveData, SpecMove};
use crate::piece::PlayerColor;
use crate::rankfile::{dirs4_seq, dirs8_seq, dstep, in_bounds, rf_at, Direction, Rankfile};
use crate::slider;

verus! {

broadcast use crate::board::lemma_square_at_off_board;

/// The custodial capture along one direction from the destination `end`:
/// the square one step out, when it holds an enemy piece and the square
/// two steps out holds a piece of the mover's own colour.
pub open spec fn pawn_cap_dir(
    b: GameBoard,
    end: Rankfile,
    color: PlayerColor,
    d: Direction,
) -> Seq<Rankfile> {
    let s = dstep(d);
    let r1 = end.rank_idx() + s.0;
    let f1 = end.file_idx() + s.1;
    let r2 = end.rank_idx() + 2 * s.0;
    let f2 = end.file_idx() + 2 * s.1;
    if in_bounds(r2, f2) && (b.square_at(r2, f2) matches Some(p) && p.color == color) && (
    b.square_at(r1, f1) matches Some(q) && q.color != color) {
        seq![rf_at(r1, f1)]
    } else {
        Seq::empty()
    }
}

/// The custodial captures of a move ending at `end`, over the first `n` of
/// the 8 directions, in direction order.
pub open spec fn pawn_caps_upto(b: GameBoard, end: Rankfile, color: PlayerColor, n: int) -> Seq<
    Rankfile,
>
    decreases n,
{
    if n <= 0 {
        Seq::empty()
    } else {
        pawn_caps_upto(b, end, color, n - 1) + pawn_cap_dir(b, end, color, dirs8_seq()[n - 1])
    }
}

/// The full custodial capture set of a move ending at `end`, applied
/// symmetrically in all 8 directions from the destination.
pub open spec fn pawn_caps(b: GameBoard, end: Rankfile, color: PlayerColor) -> Seq<Rankfile> {
    pawn_caps_upto(b, end, color, 8)
}

/// All moves of a Pawn of `color` at `start`: one per orthogonal
/// line-of-sight square, each with its custodial capture set.
pub open spec fn pawn_moves(b: GameBoard, start: Rankfile, color: PlayerColor) -> Seq<SpecMove> {
    slider::slider_moves(b, start, color, slider::CaptureRule::Custodial, dirs4_seq())
}

/// The custodial capture set of a move ending at `end`.
pub fn pawn_captures(board: &GameBoard, end: Rankfile, color: PlayerColor) -> (out: Vec<Rankfile>)
    requires
        board.wf(),
    ensures
        out@ == pawn_caps(*board, end, color),
{
    let (r, f) = end.to_signed_coords();
    let dirs = Rankfile::all_directions();
    let mut out: Vec<Rankfile> = Vec::new();
    let mut i: usize = 0;
    while i < 8
        invariant
            0 <= i <= 8,
            board.wf(),
            dirs@ == dirs8_seq(),
            r as int == end.rank_idx(),
            f as int == end.file_idx(),
            in_bounds(r as int, f as int),
            out@ == pawn_caps_upto(*board, end, color, i as int),
        decreases 8 - i,
    {
        let d = dirs[i];
        let r2 = r + 2 * d.0;
        let f2 = f + 2 * d.1;
        let mut friend_beyond = false;
        match board.get_square_from_coords(r2, f2) {
            Some(p) => {
                if p.color == color {
                    friend_beyond = true;
                }
            },
            None => (),
        }
        let mut enemy_between = false;
        match board.get_square_from_coords(r + d.0, f + d.1) {
            Some(q) => {
                if q.color != color {
                    enemy_between = true;
                }
            },
            None => (),
        }
        if friend_beyond && enemy_between {
            match Rankfile::from(r + d.0, f + d.1) {
                Some(a) => {
                    proof {
                        assert(out@.push(a) =~= pawn_caps_upto(*board, end, color, i + 1));
                    }
                    out.push(a);
                },
                None => {
                    proof {
                        assert(false);
                    }
                },
            }
        } else {
            proof {
                assert(out@ + Seq::<Rankfile>::empty() =~= out@);
            }
        }
        i = i + 1;
    }
    out
}

/// All moves of a Pawn of `color` at `start`, one per orthogonal
/// line-of-sight square, nearest first in each direction.
pub fn move_generator_iter(board: &GameBoard, start: Rankfile, color: PlayerColor) -> (out: Vec<
    MoveData,
>)
    requires
        board.wf(),
    ensures
        out.deep_view() == pawn_moves(*board, start, color),
{
    let dirs = Rankfile::cardinal_directions();
    slider::generate(board, start, color, slider::CaptureRule::Custodial, &dirs)
}

} // verus!
