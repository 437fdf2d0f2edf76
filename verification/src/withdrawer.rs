//! The Withdrawer: slides along all 8 directions and captures by
//! withdrawal. A square that was adjacent to the start and held an enemy
//! piece is captured exactly when it is no longer adjacent to the
//! destination — moving directly away from an enemy piece captures it.

use vstd::prelude::*;

use crate::board::GameBoard;
use crate::moves::{MoveData, SpecMove};
use crate::piece::PlayerColor;
use crate::rankfile::{dirs8_seq, dstep, in_bounds, rf_at, Direction, Rankfile};
use crate::slider;

verus! {

broadcast use crate::board::lemma_square_at_off_board;

/// Whether the squares at indices (r, f) and `b` are distinct and at most
/// one step apart on both axes.
pub open spec fn adjacent_coords(r: int, f: int, b: Rankfile) -> bool {
    &&& !(r == b.rank_idx() && f == b.file_idx())
    &&& -1 <= r - b.rank_idx() <= 1
    &&& -1 <= f - b.file_idx() <= 1
}

/// The withdrawal capture along one direction from `start`: the adjacent
/// square in that direction, if it holds an enemy piece that is not also
/// adjacent to the destination `end`.
pub open spec fn withdrawer_cap_dir(
    b: GameBoard,
    start: Rankfile,
    end: Rankfile,
    color: PlayerColor,
    d: Direction,
) -> Seq<Rankfile> {
    let s = dstep(d);
    let r = start.rank_idx() + s.0;
    let f = start.file_idx() + s.1;
    if in_bounds(r, f) && (b.square_at(r, f) matches Some(p) && p.color != color)
        && !adjacent_coords(r, f, end) {
        seq![rf_at(r, f)]
    } else {
        Seq::empty()
    }
}

/// The withdrawal captures of the move `start -> end`, over the first `n`
/// of the 8 directions, in direction order.
pub open spec fn withdrawer_caps_upto(
    b: GameBoard,
    start: Rankfile,
    end: Rankfile,
    color: PlayerColor,
    n: int,
) -> Seq<Rankfile>
    decreases n,
{
    if n <= 0 {
        Seq::empty()
    } else {
        withdrawer_caps_upto(b, start, end, color, n - 1) + withdrawer_cap_dir(
            b,
            start,
            end,
            color,
            dirs8_seq()[n - 1],
        )
    }
}

/// The full withdrawal capture set of the move `start -> end`: every square
/// adjacent to `start` holding an enemy piece that the move leaves behind.
pub open spec fn withdrawer_caps(
    b: GameBoard,
    start: Rankfile,
    end: Rankfile,
    color: PlayerColor,
) -> Seq<Rankfile> {
    withdrawer_caps_upto(b, start, end, color, 8)
}

/// All moves of a Withdrawer of `color` at `start`: one per line-of-sight
/// square in each of the 8 directions, each with its withdrawal capture
/// set.
pub open spec fn withdrawer_moves(b: GameBoard, start: Rankfile, color: PlayerColor) -> Seq<
    SpecMove,
> {
    slider::slider_moves(b, start, color, slider::CaptureRule::Withdrawal, dirs8_seq())
}

/// The withdrawal capture set of the move `start -> end`.
pub fn withdrawer_captures(
    board: &GameBoard,
    start: Rankfile,
    end: Rankfile,
    color: PlayerColor,
) -> (out: Vec<Rankfile>)
    requires
        board.wf(),
    ensures
        out@ == withdrawer_caps(*board, start, end, color),
{
    let (r, f) = start.to_signed_coords();
    let (er, ef) = end.to_signed_coords();
    let dirs = Rankfile::all_directions();
    let mut out: Vec<Rankfile> = Vec::new();
    let mut i: usize = 0;
    while i < 8
        invariant
            0 <= i <= 8,
            board.wf(),
            dirs@ == dirs8_seq(),
            r as int == start.rank_idx(),
            f as int == start.file_idx(),
            er as int == end.rank_idx(),
            ef as int == end.file_idx(),
            in_bounds(r as int, f as int),
            in_bounds(er as int, ef as int),
            out@ == withdrawer_caps_upto(*board, start, end, color, i as int),
        decreases 8 - i,
    {
        let d = dirs[i];
        let nr = r + d.0;
        let nf = f + d.1;
        let mut enemy_here = false;
        match board.get_square_from_coords(nr, nf) {
            Some(p) => {
                if p.color != color {
                    enemy_here = true;
                }
            },
            None => (),
        }
        let dr = nr - er;
        let df = nf - ef;
        let adjacent_to_end = !(dr == 0 && df == 0) && -1 <= dr && dr <= 1 && -1 <= df && df <= 1;
        if enemy_here && !adjacent_to_end {
            match Rankfile::from(nr, nf) {
                Some(a) => {
                    proof {
                        assert(out@.push(a) =~= withdrawer_caps_upto(
                            *board,
                            start,
                            end,
                            color,
                            i + 1,
                        ));
                    }
                    out.push(a);
                },
                None => {
                    proof {
                        assert(false);
                    }
                },
            }
        } else {
            proof {
                assert(out@ + withdrawer_cap_dir(*board, start, end, color, dirs8_seq()[i as int])
                    =~= out@);
            }
        }
        i = i + 1;
    }
    out
}

/// All moves of a Withdrawer of `color` at `start`, one per line-of-sight
/// square, nearest first in each direction.
pub fn move_generator_iter(board: &GameBoard, start: Rankfile, color: PlayerColor) -> (out: Vec<
    MoveData,
>)
    requires
        board.wf(),
    ensures
        out.deep_view() == withdrawer_moves(*board, start, color),
{
    let dirs = Rankfile::all_directions();
    slider::generate(board, start, color, slider::CaptureRule::Withdrawal, &dirs)
}

} // verus!
