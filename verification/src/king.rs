//! The King: steps to any of its 8 immediate neighbours. A neighbour
//! holding an enemy piece is a legal destination whose capture set is
//! exactly that square — the King is the only piece that captures by
//! landing on the captured square. A neighbour holding a friendly piece is
//! not a destination. No check or checkmate restriction exists: the game is
//! played by capture-the-king rules.

use vstd::prelude::*;

use crate::board::GameBoard;
use crate::moves::{MoveData, SpecMove};
use crate::piece::PlayerColor;
use crate::rankfile::{dirs8_seq, dstep, in_bounds, rf_at, Direction, Rankfile};

verus! {

/// The King's move one step in direction `d`, if any: onto an empty
/// neighbour with no capture, or onto an enemy-held neighbour capturing
/// exactly that square.
pub open spec fn king_move_dir(
    b: GameBoard,
    start: Rankfile,
    color: PlayerColor,
    d: Direction,
) -> Seq<SpecMove> {
    let s = dstep(d);
    let r = start.rank_idx() + s.0;
    let f = start.file_idx() + s.1;
    if !in_bounds(r, f) {
        Seq::empty()
    } else {
        match b.square_at(r, f) {
            None => seq![(SpecMove { start, end: rf_at(r, f), caps: Seq::empty() })],
            Some(p) => if p.color != color {
                seq![(SpecMove { start, end: rf_at(r, f), caps: seq![rf_at(r, f)] })]
            } else {
                Seq::empty()
            },
        }
    }
}

/// The King's moves over the first `n` of the 8 directions, in direction
/// order.
pub open spec fn king_moves_upto(b: GameBoard, start: Rankfile, color: PlayerColor, n: int) -> Seq<
    SpecMove,
>
    decreases n,
{
    if n <= 0 {
        Seq::empty()
    } else {
        king_moves_upto(b, start, color, n - 1) + king_move_dir(b, start, color, dirs8_seq()[n - 1])
    }
}

/// All moves of a King of `color` at `start`.
pub open spec fn king_moves(b: GameBoard, start: Rankfile, color: PlayerColor) -> Seq<SpecMove> {
    king_moves_upto(b, start, color, 8)
}

/// All moves of a King of `color` at `start`: each empty neighbour with no
/// capture, each enemy-held neighbour capturing exactly that square.
pub fn generate_moves_naive(board: &GameBoard, start: Rankfile, color: PlayerColor) -> (out: Vec<
    MoveData,
>)
    requires
        board.wf(),
    ensures
        out.deep_view() == king_moves(*board, start, color),
{
    let (r, f) = start.to_signed_coords();
    let dirs = Rankfile::all_directions();
    let mut out: Vec<MoveData> = Vec::new();
    let mut i: usize = 0;
    while i < 8
        invariant
            0 <= i <= 8,
            board.wf(),
            dirs@ == dirs8_seq(),
            r as int == start.rank_idx(),
            f as int == start.file_idx(),
            in_bounds(r as int, f as int),
            out.deep_view() == king_moves_upto(*board, start, color, i as int),
        decreases 8 - i,
    {
        let d = dirs[i];
        match Rankfile::from(r + d.0, f + d.1) {
            Some(a) => {
                match board.get_square(a) {
                    None => {
                        let m = MoveData { start, end: a, captures: Vec::new() };
                        proof {
                            assert(m@ == king_move_dir(*board, start, color, dirs8_seq()[i as int])[0]);
                            assert(out.deep_view().push(m@) =~= king_moves_upto(
                                *board,
                                start,
                                color,
                                i + 1,
                            ));
                        }
                        out.push(m);
                    },
                    Some(p) => {
                        if p.color != color {
                            let mut captures: Vec<Rankfile> = Vec::new();
                            captures.push(a);
                            let m = MoveData { start, end: a, captures };
                            proof {
                                assert(m@.caps =~= seq![rf_at(r + d.0, f + d.1)]);
                                assert(m@ == king_move_dir(*board, start, color, dirs8_seq()[i as int])[0]);
                                assert(out.deep_view().push(m@) =~= king_moves_upto(
                                    *board,
                                    start,
                                    color,
                                    i + 1,
                                ));
                            }
                            out.push(m);
                        } else {
                            proof {
                                assert(out.deep_view() + king_move_dir(
                                    *board,
                                    start,
                                    color,
                                    dirs8_seq()[i as int],
                                ) =~= out.deep_view());
                            }
                        }
                    },
                }
            },
            None => {
                proof {
                    assert(out.deep_view() + king_move_dir(
                        *board,
                        start,
                        color,
                        dirs8_seq()[i as int],
                    ) =~= out.deep_view());
                }
            },
        }
        i = i + 1;
    }
    out
}

} // verus!
