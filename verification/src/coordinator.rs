//! The Coordinator: slides along all 8 directions and captures by
//! interception. For every cached king location of its own side, the move
//! proposes two geometric squares — the destination's rank crossed with the
//! king's file, and the king's rank crossed with the destination's file.
//! The squares are proposed whether friend, foe or empty — clearing an
//! empty square is a harmless no-op for the executor — except that a
//! geometric square equal to the move's own destination is left out: only
//! the King captures its own destination square.

use vstd::prelude::*;

use crate::board::GameBoard;
use crate::moves::{MoveData, SpecMove};
use crate::piece::PlayerColor;
use crate::rankfile::{dirs8_seq, Direction, Rankfile};
use crate::slider;

verus! {

/// The interception captures of a move ending at `end`, over the first `n`
/// cached king locations of the mover's side: per king, the two rank/file
/// intersection squares, minus any square equal to `end` itself.
pub open spec fn coordinator_caps_upto(
    b: GameBoard,
    end: Rankfile,
    color: PlayerColor,
    n: int,
) -> Seq<Rankfile>
    decreases n,
{
    if n <= 0 {
        Seq::empty()
    } else {
        let k = b.king_locs(color)[n - 1];
        let on_end_rank = Rankfile { rank: end.rank, file: k.file };
        let on_end_file = Rankfile { rank: k.rank, file: end.file };
        coordinator_caps_upto(b, end, color, n - 1) + (if on_end_rank == end {
            Seq::empty()
        } else {
            seq![on_end_rank]
        }) + (if on_end_file == end {
            Seq::empty()
        } else {
            seq![on_end_file]
        })
    }
}

/// The full interception capture set of a move ending at `end`: per cached
/// king of the mover's side, the two geometric intersection squares, minus
/// any square equal to the destination itself.
pub open spec fn coordinator_caps(b: GameBoard, end: Rankfile, color: PlayerColor) -> Seq<
    Rankfile,
> {
    coordinator_caps_upto(b, end, color, b.king_locs(color).len() as int)
}

/// Law: a Coordinator's capture set never contains the move's own
/// destination — only the King captures the square it moves onto.
pub proof fn lemma_coordinator_caps_exclude_destination(
    b: GameBoard,
    end: Rankfile,
    color: PlayerColor,
    n: int,
)
    ensures
        !coordinator_caps_upto(b, end, color, n).contains(end),
    decreases n,
{
    if n > 0 {
        lemma_coordinator_caps_exclude_destination(b, end, color, n - 1);
        let prev = coordinator_caps_upto(b, end, color, n - 1);
        let cur = coordinator_caps_upto(b, end, color, n);
        if cur.contains(end) {
            let i = choose|i: int| 0 <= i < cur.len() && cur[i] == end;
            if i < prev.len() {
                assert(prev[i] == end);
            }
        }
    }
}

/// All moves of a Coordinator of `color` at `start`: one per line-of-sight
/// square in each of the 8 directions, each with its interception capture
/// set.
pub open spec fn coordinator_moves(b: GameBoard, start: Rankfile, color: PlayerColor) -> Seq<
    SpecMove,
> {
    slider::slider_moves(b, start, color, slider::CaptureRule::Interception, dirs8_seq())
}

/// The interception capture set of a move ending at `end`.
pub fn coordinator_captures(board: &GameBoard, end: Rankfile, color: PlayerColor) -> (out: Vec<
    Rankfile,
>)
    ensures
        out@ == coordinator_caps(*board, end, color),
{
    let kings = board.get_king_locs(color);
    let mut out: Vec<Rankfile> = Vec::new();
    let mut i: usize = 0;
    while i < kings.len()
        invariant
            0 <= i <= kings@.len(),
            kings@ == board.king_locs(color),
            out@ == coordinator_caps_upto(*board, end, color, i as int),
        decreases kings@.len() - i,
    {
        let k = kings[i];
        let on_end_rank = Rankfile { rank: end.rank, file: k.file };
        if on_end_rank != end {
            out.push(on_end_rank);
        }
        let on_end_file = Rankfile { rank: k.rank, file: end.file };
        if on_end_file != end {
            out.push(on_end_file);
        }
        proof {
            assert(out@ =~= coordinator_caps_upto(*board, end, color, i + 1));
        }
        i = i + 1;
    }
    out
}

/// All moves of a Coordinator of `color` at `start`, one per line-of-sight
/// square, nearest first in each direction.
pub fn move_generator_iter(board: &GameBoard, start: Rankfile, color: PlayerColor) -> (out: Vec<
    MoveData,
>)
    requires
        board.wf(),
    ensures
        out.deep_view() == coordinator_moves(*board, start, color),
{
    let dirs = Rankfile::all_directions();
    slider::generate(board, start, color, slider::CaptureRule::Interception, &dirs)
}

} // verus!
