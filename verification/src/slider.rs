//! The shared algorithm of the four standard sliding movers (Pawn,
//! Withdrawer, Coordinator, Immobilizer): walk the line of sight in each
//! direction of the mover's set; every empty square reached is a candidate
//! destination, and a piece-specific capture rule computes that
//! destination's capture set. A move is emitted for every candidate whether
//! or not its capture set is empty.

use vstd::prelude::*;

use crate::board::GameBoard;
use crate::coordinator;
use crate::moves::{MoveData, SpecMove};
use crate::pawn;
use crate::piece::PlayerColor;
use crate::rankfile::{unit_dir, Direction, Rankfile};
use crate::withdrawer;

verus! {

/// Which capture rule a standard slider applies at each candidate
/// destination.
#[derive(Copy, Clone)]
pub enum CaptureRule {
    /// No captures ever: the Immobilizer's rule, and the Chameleon's plain
    /// sliding moves.
    NoCapture,
    /// The Pawn's custodial rule.
    Custodial,
    /// The Withdrawer's withdrawal rule.
    Withdrawal,
    /// The Coordinator's king-intersection rule.
    Interception,
}

/// The capture set the given rule assigns to the move `start -> end`.
pub open spec fn rule_caps(
    rule: CaptureRule,
    b: GameBoard,
    start: Rankfile,
    end: Rankfile,
    color: PlayerColor,
) -> Seq<Rankfile> {
    match rule {
        CaptureRule::NoCapture => Seq::empty(),
        CaptureRule::Custodial => pawn::pawn_caps(b, end, color),
        CaptureRule::Withdrawal => withdrawer::withdrawer_caps(b, start, end, color),
        CaptureRule::Interception => coordinator::coordinator_caps(b, end, color),
    }
}

/// The moves a standard slider emits along one direction: one move per
/// line-of-sight square, nearest first, each with the rule's capture set.
pub open spec fn dir_moves(
    b: GameBoard,
    start: Rankfile,
    color: PlayerColor,
    rule: CaptureRule,
    d: Direction,
) -> Seq<SpecMove> {
    b.los_seq(start, d).map(
        |i: int, e: Rankfile| SpecMove { start, end: e, caps: rule_caps(rule, b, start, e, color) },
    )
}

/// The moves a standard slider emits along the first `n` of `dirs`,
/// concatenated in direction order.
pub open spec fn slider_moves_upto(
    b: GameBoard,
    start: Rankfile,
    color: PlayerColor,
    rule: CaptureRule,
    dirs: Seq<Direction>,
    n: int,
) -> Seq<SpecMove>
    decreases n,
{
    if n <= 0 {
        Seq::empty()
    } else {
        slider_moves_upto(b, start, color, rule, dirs, n - 1) + dir_moves(
            b,
            start,
            color,
            rule,
            dirs[n - 1],
        )
    }
}

/// All moves a standard slider with the given rule and direction set emits.
pub open spec fn slider_moves(
    b: GameBoard,
    start: Rankfile,
    color: PlayerColor,
    rule: CaptureRule,
    dirs: Seq<Direction>,
) -> Seq<SpecMove> {
    slider_moves_upto(b, start, color, rule, dirs, dirs.len() as int)
}

/// The capture set of the move `start -> end` under the given rule.
fn compute_caps(
    board: &GameBoard,
    start: Rankfile,
    end: Rankfile,
    color: PlayerColor,
    rule: CaptureRule,
) -> (out: Vec<Rankfile>)
    requires
        board.wf(),
    ensures
        out@ == rule_caps(rule, *board, start, end, color),
{
    match rule {
        CaptureRule::NoCapture => Vec::new(),
        CaptureRule::Custodial => pawn::pawn_captures(board, end, color),
        CaptureRule::Withdrawal => withdrawer::withdrawer_captures(board, start, end, color),
        CaptureRule::Interception => coordinator::coordinator_captures(board, end, color),
    }
}

/// Emits every move of a standard slider: for each direction, one move per
/// line-of-sight square, with the rule's capture set.
pub fn generate(
    board: &GameBoard,
    start: Rankfile,
    color: PlayerColor,
    rule: CaptureRule,
    dirs: &Vec<Direction>,
) -> (out: Vec<MoveData>)
    requires
        board.wf(),
        forall|i: int| 0 <= i < dirs@.len() ==> unit_dir(#[trigger] dirs@[i]),
    ensures
        out.deep_view() == slider_moves(*board, start, color, rule, dirs@),
{
    let mut out: Vec<MoveData> = Vec::new();
    let mut i: usize = 0;
    while i < dirs.len()
        invariant
            0 <= i <= dirs@.len(),
            board.wf(),
            forall|k: int| 0 <= k < dirs@.len() ==> unit_dir(#[trigger] dirs@[k]),
            out.deep_view() == slider_moves_upto(*board, start, color, rule, dirs@, i as int),
        decreases dirs@.len() - i,
    {
        let d = dirs[i];
        let los = board.los(start, d);
        let ghost prev = out.deep_view();
        let mut j: usize = 0;
        while j < los.len()
            invariant
                0 <= j <= los@.len(),
                board.wf(),
                los@ == board.los_seq(start, d),
                d == dirs@[i as int],
                0 <= i < dirs@.len(),
                out.deep_view() == prev + dir_moves(*board, start, color, rule, d).take(j as int),
            decreases los@.len() - j,
        {
            let end = los[j];
            let caps = compute_caps(board, start, end, color, rule);
            let m = MoveData { start, end, captures: caps };
            proof {
                assert(m@ == dir_moves(*board, start, color, rule, d)[j as int]);
                assert(out.deep_view().push(m@) =~= prev + dir_moves(
                    *board,
                    start,
                    color,
                    rule,
                    d,
                ).take(j + 1));
            }
            out.push(m);
            proof {
                assert(out.deep_view() =~= prev + dir_moves(*board, start, color, rule, d).take(
                    j + 1,
                ));
            }
            j = j + 1;
        }
        proof {
            assert(dir_moves(*board, start, color, rule, d).take(los@.len() as int) =~= dir_moves(
                *board,
                start,
                color,
                rule,
                d,
            ));
            assert(out.deep_view() =~= slider_moves_upto(
                *board,
                start,
                color,
                rule,
                dirs@,
                i + 1,
            ));
        }
        i = i + 1;
    }
    out
}

} // verus!
