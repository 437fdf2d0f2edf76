//! The move executor: applies a chosen move to a board. Every capture
//! square is cleared first, then the piece on the start square is copied to
//! the end square, then the start square is cleared. No legality is
//! re-checked: the executor trusts its caller to supply a move the
//! aggregator produced for this board. The king-location caches are not
//! touched, so they go stale when a King moves or is captured — the caches
//! are construction-time only, by design, and the contracts below say so.

use vstd::prelude::*;

use crate::board::{GameBoard, Square};
use crate::moves::MoveData;
use crate::piece::PlayerColor;
use crate::rankfile::{in_bounds, rf_at, Rankfile};

verus! {

/// What the square at (r, f) reads after applying the move: the start
/// square is cleared; the end square receives what the start square held
/// once captures were cleared; every captured square is cleared; all other
/// squares keep their contents.
pub open spec fn moved_square(
    pre: GameBoard,
    start: Rankfile,
    end: Rankfile,
    caps: Seq<Rankfile>,
    r: int,
    f: int,
) -> Square {
    if r == start.rank_idx() && f == start.file_idx() {
        None
    } else if r == end.rank_idx() && f == end.file_idx() {
        if caps.contains(start) {
            None
        } else {
            pre.at(start)
        }
    } else if caps.contains(rf_at(r, f)) {
        None
    } else {
        pre.square_at(r, f)
    }
}

/// The full relation between a board before and after applying a move:
/// every square reads as `moved_square` says, and the king-location caches
/// are carried over unchanged.
pub open spec fn move_applied(
    pre: GameBoard,
    post: GameBoard,
    start: Rankfile,
    end: Rankfile,
    caps: Seq<Rankfile>,
) -> bool {
    &&& post.wf()
    &&& forall|r: int, f: int|
        in_bounds(r, f) ==> #[trigger] post.square_at(r, f) == moved_square(
            pre,
            start,
            end,
            caps,
            r,
            f,
        )
    &&& post.king_locs(PlayerColor::White) == pre.king_locs(PlayerColor::White)
    &&& post.king_locs(PlayerColor::Black) == pre.king_locs(PlayerColor::Black)
}

/// Applies a move: clears every capture square, copies the piece from
/// `start` to `end`, then clears `start`. Not transactional, and no
/// legality re-checking; the king caches are left as they were.
pub fn execute_move(board: &mut GameBoard, move_to_execute: MoveData)
    requires
        old(board).wf(),
    ensures
        move_applied(
            *old(board),
            *final(board),
            move_to_execute.start,
            move_to_execute.end,
            move_to_execute.captures@,
        ),
{
    let MoveData { start, end, captures } = move_to_execute;
    let ghost caps = captures@;
    let mut i: usize = 0;
    while i < captures.len()
        invariant
            0 <= i <= caps.len(),
            captures@ == caps,
            board.wf(),
            board.king_locs(PlayerColor::White) == old(board).king_locs(PlayerColor::White),
            board.king_locs(PlayerColor::Black) == old(board).king_locs(PlayerColor::Black),
            forall|r: int, f: int|
                in_bounds(r, f) ==> #[trigger] board.square_at(r, f) == (if caps.take(
                    i as int,
                ).contains(rf_at(r, f)) {
                    None
                } else {
                    old(board).square_at(r, f)
                }),
        decreases caps.len() - i,
    {
        let c = captures[i];
        proof {
            assert(rf_at(c.rank_idx(), c.file_idx()) == c) by {
                crate::rankfile::lemma_coords_round_trip();
            }
            assert(caps.take(i + 1) =~= caps.take(i as int).push(c));
        }
        board.set_square(c, None);
        proof {
            assert forall|r: int, f: int| in_bounds(r, f) implies #[trigger] board.square_at(r, f)
                == (if caps.take(i + 1).contains(rf_at(r, f)) {
                None
            } else {
                old(board).square_at(r, f)
            }) by {
                if r == c.rank_idx() && f == c.file_idx() {
                    assert(rf_at(r, f) == c);
                    assert(caps.take(i + 1)[i as int] == c);
                    assert(caps.take(i + 1).contains(rf_at(r, f)));
                } else {
                    assert(caps.take(i + 1).contains(rf_at(r, f)) == caps.take(i as int).contains(
                        rf_at(r, f),
                    )) by {
                        if caps.take(i + 1).contains(rf_at(r, f)) {
                            let j = choose|j: int|
                                0 <= j < caps.take(i + 1).len() && #[trigger] caps.take(i + 1)[j]
                                    == rf_at(r, f);
                            if j < i {
                                assert(caps.take(i as int)[j] == rf_at(r, f));
                            } else {
                                assert(caps.take(i + 1)[j] == c);
                                assert(c.rank_idx() == r && c.file_idx() == f);
                            }
                        } else {
                            if caps.take(i as int).contains(rf_at(r, f)) {
                                let j = choose|j: int|
                                    0 <= j < caps.take(i as int).len() && #[trigger] caps.take(
                                        i as int,
                                    )[j] == rf_at(r, f);
                                assert(caps.take(i + 1)[j] == rf_at(r, f));
                            }
                        }
                    }
                }
            }
        }
        i = i + 1;
    }
    proof {
        assert(caps.take(caps.len() as int) =~= caps);
    }
    let moving = board.get_square(start);
    board.set_square(end, moving);
    board.set_square(start, None);
    proof {
        assert(rf_at(start.rank_idx(), start.file_idx()) == start) by {
            crate::rankfile::lemma_coords_round_trip();
        }
        assert forall|r: int, f: int| in_bounds(r, f) implies #[trigger] board.square_at(r, f)
            == moved_square(*old(board), start, end, caps, r, f) by {
            if r == start.rank_idx() && f == start.file_idx() {
            } else if r == end.rank_idx() && f == end.file_idx() {
            } else {
            }
        }
    }
}

/// Law: applying a move and then its exact inverse — destination back to
/// start, with no recaptures — restores the mover's position but does not
/// restore captured pieces: capture is destructive and irreversible. Every
/// captured square other than the two move squares stays empty, the
/// destination square is left empty, and every untouched square keeps its
/// original contents.
pub proof fn lemma_undo_restores_mover_not_captures(
    b0: GameBoard,
    b1: GameBoard,
    b2: GameBoard,
    start: Rankfile,
    end: Rankfile,
    caps: Seq<Rankfile>,
)
    requires
        move_applied(b0, b1, start, end, caps),
        move_applied(b1, b2, end, start, Seq::empty()),
        start != end,
        !caps.contains(start),
    ensures
        b2.at(start) == b0.at(start),
        b2.at(end) is None,
        forall|c: Rankfile| caps.contains(c) && c != start && c != end ==> #[trigger] b2.at(
            c,
        ) is None,
        forall|r: int, f: int|
            in_bounds(r, f) && !(r == start.rank_idx() && f == start.file_idx()) && !(r
                == end.rank_idx() && f == end.file_idx()) && !caps.contains(rf_at(r, f))
                ==> #[trigger] b2.square_at(r, f) == b0.square_at(r, f),
{
    lemma_rankfile_coords_distinct(start, end);
    assert(b2.at(start) == b0.at(start)) by {
        assert(b2.at(start) == moved_square(b1, end, start, Seq::empty(), start.rank_idx(),
            start.file_idx()));
        assert(b1.at(end) == moved_square(b0, start, end, caps, end.rank_idx(), end.file_idx()));
    }
    assert forall|c: Rankfile| caps.contains(c) && c != start && c != end implies #[trigger] b2.at(
        c,
    ) is None by {
        lemma_rankfile_coords_distinct(c, start);
        lemma_rankfile_coords_distinct(c, end);
        assert(rf_at(c.rank_idx(), c.file_idx()) == c) by {
            crate::rankfile::lemma_coords_round_trip();
        }
        assert(b1.at(c) is None);
        assert(b2.at(c) == moved_square(b1, end, start, Seq::empty(), c.rank_idx(), c.file_idx()));
    }
}

/// Distinct squares differ in at least one coordinate.
proof fn lemma_rankfile_coords_distinct(a: Rankfile, b: Rankfile)
    requires
        a != b,
    ensures
        !(a.rank_idx() == b.rank_idx() && a.file_idx() == b.file_idx()),
{
    if a.rank_idx() == b.rank_idx() && a.file_idx() == b.file_idx() {
        assert(crate::rankfile::Rank::at_idx(a.rank.idx()) == a.rank);
        assert(crate::rankfile::Rank::at_idx(b.rank.idx()) == b.rank);
        assert(crate::rankfile::File::at_idx(a.file.idx()) == a.file);
        assert(crate::rankfile::File::at_idx(b.file.idx()) == b.file);
    }
}

} // verus!
