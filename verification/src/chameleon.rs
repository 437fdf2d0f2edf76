//! The Chameleon: slides along all 8 rays to any empty square without
//! capturing, and in addition may capture a piece of type X at a
//! destination only by satisfying X's own movement-and-capture rule — it
//! runs each of the other movers and keeps the proposed moves whose
//! destination square holds a piece of the matching type. Sub-movers may
//! propose the same destination independently, so results are merged by
//! destination: a destination appears once, and its capture sets are
//! unioned, never overwritten. No sub-mover targets Immobilizers or
//! Chameleons, so those types are never captured this way. A Chameleon
//! adjacent to an enemy King may always capture it via the King sub-rule,
//! with no further restriction.

use vstd::prelude::*;

use crate::board::GameBoard;
use crate::coordinator;
use crate::king;
use crate::longleaper;
use crate::moves::{contains_rf, copy_move, copy_rf_vec, MoveData, SpecMove};
use crate::pawn;
use crate::piece::{PlayerColor, UltimaPieceType};
use crate::rankfile::{dirs8_seq, Rankfile};
use crate::slider;
use crate::withdrawer;

verus! {

/// Whether no two moves of `s` share a destination.
pub open spec fn ends_unique(s: Seq<SpecMove>) -> bool {
    forall|i: int, j: int|
        0 <= i < j < s.len() ==> (#[trigger] s[i]).end != (#[trigger] s[j]).end
}

/// The set union of two capture lists as a list: `a`, then those squares
/// among the first `n` of `b` not already present.
pub open spec fn cap_union_upto(a: Seq<Rankfile>, b: Seq<Rankfile>, n: int) -> Seq<Rankfile>
    decreases n,
{
    if n <= 0 {
        a
    } else {
        let u = cap_union_upto(a, b, n - 1);
        if u.contains(b[n - 1]) {
            u
        } else {
            u.push(b[n - 1])
        }
    }
}

/// The set union of two capture lists, keeping `a`'s order first.
pub open spec fn cap_union(a: Seq<Rankfile>, b: Seq<Rankfile>) -> Seq<Rankfile> {
    cap_union_upto(a, b, b.len() as int)
}

/// One move merged into an accumulated list: if some accumulated move
/// already ends where `m` ends, that move's capture set is unioned with
/// `m`'s; otherwise `m` is appended.
pub open spec fn merge_one(acc: Seq<SpecMove>, m: SpecMove) -> Seq<SpecMove> {
    if exists|k: int| 0 <= k < acc.len() && (#[trigger] acc[k]).end == m.end {
        let k = choose|k: int| 0 <= k < acc.len() && (#[trigger] acc[k]).end == m.end;
        acc.update(
            k,
            SpecMove { start: acc[k].start, end: acc[k].end, caps: cap_union(acc[k].caps, m.caps) },
        )
    } else {
        acc.push(m)
    }
}

/// The first `n` moves of `ext` merged into `acc`, in order.
pub open spec fn merge_upto(acc: Seq<SpecMove>, ext: Seq<SpecMove>, n: int) -> Seq<SpecMove>
    decreases n,
{
    if n <= 0 {
        acc
    } else {
        merge_one(merge_upto(acc, ext, n - 1), ext[n - 1])
    }
}

/// All moves of `ext` merged into `acc`, in order.
pub open spec fn merge_all(acc: Seq<SpecMove>, ext: Seq<SpecMove>) -> Seq<SpecMove> {
    merge_upto(acc, ext, ext.len() as int)
}

/// The first `n` moves of `s` whose destination square holds a piece of
/// type `t`, in order.
pub open spec fn type_filter_upto(
    b: GameBoard,
    s: Seq<SpecMove>,
    t: UltimaPieceType,
    n: int,
) -> Seq<SpecMove>
    decreases n,
{
    if n <= 0 {
        Seq::empty()
    } else {
        let prev = type_filter_upto(b, s, t, n - 1);
        if b.at(s[n - 1].end) matches Some(p) && p.piece_type == t {
            prev.push(s[n - 1])
        } else {
            prev
        }
    }
}

/// The moves of `s` whose destination square holds a piece of type `t`.
pub open spec fn type_filter(b: GameBoard, s: Seq<SpecMove>, t: UltimaPieceType) -> Seq<SpecMove> {
    type_filter_upto(b, s, t, s.len() as int)
}

/// All moves of a Chameleon of `color` at `start`: each sub-mover's moves
/// kept where the destination holds the matching piece type, merged by
/// destination in sub-mover order — Pawn, King, Longleaper, Withdrawer,
/// Coordinator — and finally its own plain sliding moves to empty squares.
pub open spec fn chameleon_moves(b: GameBoard, start: Rankfile, color: PlayerColor) -> Seq<
    SpecMove,
> {
    let as_pawn = merge_all(
        Seq::empty(),
        type_filter(b, pawn::pawn_moves(b, start, color), UltimaPieceType::Pawn),
    );
    let as_king = merge_all(
        as_pawn,
        type_filter(b, king::king_moves(b, start, color), UltimaPieceType::King),
    );
    let as_leaper = merge_all(
        as_king,
        type_filter(b, longleaper::leaper_moves(b, start, color), UltimaPieceType::Longleaper),
    );
    let as_withdrawer = merge_all(
        as_leaper,
        type_filter(b, withdrawer::withdrawer_moves(b, start, color), UltimaPieceType::Withdrawer),
    );
    let as_coordinator = merge_all(
        as_withdrawer,
        type_filter(
            b,
            coordinator::coordinator_moves(b, start, color),
            UltimaPieceType::Coordinator,
        ),
    );
    merge_all(
        as_coordinator,
        slider::slider_moves(b, start, color, slider::CaptureRule::NoCapture, dirs8_seq()),
    )
}

/// In a list with pairwise distinct destinations, at most one index can
/// hold any destination.
proof fn lemma_unique_end_index(acc: Seq<SpecMove>, k1: int, k2: int)
    requires
        ends_unique(acc),
        0 <= k1 < acc.len(),
        0 <= k2 < acc.len(),
        acc[k1].end == acc[k2].end,
    ensures
        k1 == k2,
{
    if k1 < k2 {
        assert(acc[k1].end != acc[k2].end);
    } else if k2 < k1 {
        assert(acc[k2].end != acc[k1].end);
    }
}

/// Merging one move into a list with pairwise distinct destinations keeps
/// the destinations pairwise distinct.
proof fn lemma_merge_one_unique(acc: Seq<SpecMove>, m: SpecMove)
    requires
        ends_unique(acc),
    ensures
        ends_unique(merge_one(acc, m)),
{
    let res = merge_one(acc, m);
    if exists|k: int| 0 <= k < acc.len() && (#[trigger] acc[k]).end == m.end {
        let k = choose|k: int| 0 <= k < acc.len() && (#[trigger] acc[k]).end == m.end;
        assert forall|i: int, j: int| 0 <= i < j < res.len() implies (#[trigger] res[i]).end != (
        #[trigger] res[j]).end by {
            assert(res[i].end == acc[i].end);
            assert(res[j].end == acc[j].end);
        }
    } else {
        assert forall|i: int, j: int| 0 <= i < j < res.len() implies (#[trigger] res[i]).end != (
        #[trigger] res[j]).end by {
            if j == acc.len() {
                assert(res[i].end == acc[i].end);
                assert(acc[i].end != m.end);
            } else {
                assert(res[i].end == acc[i].end);
                assert(res[j].end == acc[j].end);
            }
        }
    }
}

/// As a set, the union of two capture lists is the union of the sets.
proof fn lemma_cap_union_upto_to_set(a: Seq<Rankfile>, b: Seq<Rankfile>, n: int)
    requires
        0 <= n <= b.len(),
    ensures
        cap_union_upto(a, b, n).to_set() == a.to_set().union(b.take(n).to_set()),
    decreases n,
{
    if n <= 0 {
        assert(cap_union_upto(a, b, 0).to_set() =~= a.to_set().union(b.take(0).to_set()));
    } else {
        lemma_cap_union_upto_to_set(a, b, n - 1);
        let u = cap_union_upto(a, b, n - 1);
        let res = cap_union_upto(a, b, n);
        assert forall|x: Rankfile| res.to_set().contains(x) implies a.to_set().union(
            b.take(n).to_set(),
        ).contains(x) by {
            let i = choose|i: int| 0 <= i < res.len() && #[trigger] res[i] == x;
            if i < u.len() {
                assert(res[i] == u[i]);
                assert(u.to_set().contains(x));
                if !a.to_set().contains(x) {
                    assert(b.take(n - 1).to_set().contains(x));
                    let i2 = choose|i2: int|
                        0 <= i2 < b.take(n - 1).len() && #[trigger] b.take(n - 1)[i2] == x;
                    assert(b.take(n)[i2] == x);
                    assert(b.take(n).contains(x));
                }
            } else {
                assert(x == b[n - 1]);
                assert(b.take(n)[n - 1] == b[n - 1]);
                assert(b.take(n).contains(x));
            }
        }
        assert forall|x: Rankfile| a.to_set().union(b.take(n).to_set()).contains(x) implies res.to_set().contains(
            x,
        ) by {
            if a.to_set().contains(x) {
                assert(u.to_set().contains(x));
                let i = choose|i: int| 0 <= i < u.len() && u[i] == x;
                assert(res[i] == x);
            } else {
                let i = choose|i: int| 0 <= i < b.take(n).len() && b.take(n)[i] == x;
                if i < n - 1 {
                    assert(b.take(n - 1)[i] == x);
                    assert(u.to_set().contains(x));
                    let i2 = choose|i2: int| 0 <= i2 < u.len() && u[i2] == x;
                    assert(res[i2] == x);
                } else {
                    assert(x == b[n - 1]);
                    if u.contains(b[n - 1]) {
                        let i2 = choose|i2: int| 0 <= i2 < u.len() && u[i2] == x;
                        assert(res[i2] == x);
                    } else {
                        assert(res[res.len() - 1] == x);
                    }
                }
            }
        }
        assert(res.to_set() =~= a.to_set().union(b.take(n).to_set()));
    }
}

/// Merging moves whose destinations all differ from `e` leaves the single
/// accumulated entry for `e` untouched, in place, and keeps destinations
/// pairwise distinct.
proof fn lemma_merge_range_entry(
    acc: Seq<SpecMove>,
    ext: Seq<SpecMove>,
    k: int,
    e: Rankfile,
    n0: int,
    n1: int,
)
    requires
        0 <= n0 <= n1 <= ext.len(),
        ends_unique(merge_upto(acc, ext, n0)),
        0 <= k < merge_upto(acc, ext, n0).len(),
        merge_upto(acc, ext, n0)[k].end == e,
        forall|j: int| n0 <= j < n1 ==> (#[trigger] ext[j]).end != e,
    ensures
        merge_upto(acc, ext, n1).len() >= merge_upto(acc, ext, n0).len(),
        merge_upto(acc, ext, n1)[k] == merge_upto(acc, ext, n0)[k],
        ends_unique(merge_upto(acc, ext, n1)),
    decreases n1 - n0,
{
    if n1 > n0 {
        lemma_merge_range_entry(acc, ext, k, e, n0, n1 - 1);
        let cur = merge_upto(acc, ext, n1 - 1);
        let m = ext[n1 - 1];
        lemma_merge_one_unique(cur, m);
        if exists|k0: int| 0 <= k0 < cur.len() && (#[trigger] cur[k0]).end == m.end {
            let k0 = choose|k0: int| 0 <= k0 < cur.len() && (#[trigger] cur[k0]).end == m.end;
            assert(cur[k0].end == m.end);
            assert(m.end != e);
            assert(k0 != k);
            assert(merge_one(cur, m)[k] == cur[k]);
        } else {
            assert(merge_one(cur, m)[k] == cur[k]);
        }
    }
}

/// Merging a whole extension into a list with pairwise distinct
/// destinations keeps the destinations pairwise distinct.
proof fn lemma_merge_upto_unique(acc: Seq<SpecMove>, ext: Seq<SpecMove>, n: int)
    requires
        ends_unique(acc),
        0 <= n <= ext.len(),
    ensures
        ends_unique(merge_upto(acc, ext, n)),
    decreases n,
{
    if n > 0 {
        lemma_merge_upto_unique(acc, ext, n - 1);
        lemma_merge_one_unique(merge_upto(acc, ext, n - 1), ext[n - 1]);
    }
}

/// Law (Chameleon destinations): every destination appears exactly once in
/// the Chameleon's move list — however many sub-movers proposed it, the
/// merged result holds one entry per destination.
pub proof fn lemma_chameleon_destinations_unique(b: GameBoard, start: Rankfile, color: PlayerColor)
    ensures
        ends_unique(chameleon_moves(b, start, color)),
{
    let f1 = type_filter(b, pawn::pawn_moves(b, start, color), UltimaPieceType::Pawn);
    let as_pawn = merge_all(Seq::empty(), f1);
    lemma_merge_upto_unique(Seq::empty(), f1, f1.len() as int);
    let f2 = type_filter(b, king::king_moves(b, start, color), UltimaPieceType::King);
    let as_king = merge_all(as_pawn, f2);
    lemma_merge_upto_unique(as_pawn, f2, f2.len() as int);
    let f3 = type_filter(b, longleaper::leaper_moves(b, start, color), UltimaPieceType::Longleaper);
    let as_leaper = merge_all(as_king, f3);
    lemma_merge_upto_unique(as_king, f3, f3.len() as int);
    let f4 = type_filter(
        b,
        withdrawer::withdrawer_moves(b, start, color),
        UltimaPieceType::Withdrawer,
    );
    let as_withdrawer = merge_all(as_leaper, f4);
    lemma_merge_upto_unique(as_leaper, f4, f4.len() as int);
    let f5 = type_filter(
        b,
        coordinator::coordinator_moves(b, start, color),
        UltimaPieceType::Coordinator,
    );
    let as_coordinator = merge_all(as_withdrawer, f5);
    lemma_merge_upto_unique(as_withdrawer, f5, f5.len() as int);
    let f6 = slider::slider_moves(b, start, color, slider::CaptureRule::NoCapture, dirs8_seq());
    lemma_merge_upto_unique(as_coordinator, f6, f6.len() as int);
}

/// Law (Chameleon merge): when the accumulated moves and an extension each
/// propose the same destination — the accumulated list holding it once, at
/// index `k` with capture set c1, and the extension once, at index `j`
/// with capture set c2 — the merged result holds that destination exactly
/// once, still at index `k`, and its capture set is, as a set, exactly the
/// union of c1 and c2.
pub proof fn lemma_merge_unions_shared_destination(
    acc: Seq<SpecMove>,
    ext: Seq<SpecMove>,
    k: int,
    j: int,
)
    requires
        ends_unique(acc),
        0 <= k < acc.len(),
        0 <= j < ext.len(),
        acc[k].end == ext[j].end,
        forall|j2: int| 0 <= j2 < ext.len() && j2 != j ==> (#[trigger] ext[j2]).end != ext[j].end,
    ensures
        ends_unique(merge_all(acc, ext)),
        merge_all(acc, ext).len() >= acc.len(),
        merge_all(acc, ext)[k].end == ext[j].end,
        merge_all(acc, ext)[k].caps.to_set() == acc[k].caps.to_set().union(ext[j].caps.to_set()),
{
    let e = ext[j].end;
    assert(merge_upto(acc, ext, 0) == acc);
    lemma_merge_range_entry(acc, ext, k, e, 0, j);
    let cur = merge_upto(acc, ext, j);
    let m = ext[j];
    assert(cur[k].end == e);
    lemma_merge_one_unique(cur, m);
    let k0 = choose|k0: int| 0 <= k0 < cur.len() && (#[trigger] cur[k0]).end == m.end;
    assert(cur[k].end == m.end);
    lemma_unique_end_index(cur, k0, k);
    let merged = merge_one(cur, m);
    assert(merged == merge_upto(acc, ext, j + 1));
    assert(merged[k].end == e);
    assert(merged[k].caps == cap_union(acc[k].caps, m.caps));
    lemma_merge_range_entry(acc, ext, k, e, j + 1, ext.len() as int);
    assert(merge_all(acc, ext)[k] == merged[k]);
    lemma_cap_union_upto_to_set(acc[k].caps, m.caps, m.caps.len() as int);
    assert(m.caps.take(m.caps.len() as int) =~= m.caps);
}

/// The union of two capture lists.
pub fn union_caps(a: &Vec<Rankfile>, b: &Vec<Rankfile>) -> (out: Vec<Rankfile>)
    ensures
        out@ == cap_union(a@, b@),
{
    let mut out = copy_rf_vec(a);
    let mut j: usize = 0;
    while j < b.len()
        invariant
            0 <= j <= b@.len(),
            out@ == cap_union_upto(a@, b@, j as int),
        decreases b@.len() - j,
    {
        if !contains_rf(&out, b[j]) {
            out.push(b[j]);
        }
        j = j + 1;
    }
    out
}

/// The index of the accumulated move sharing `e` as destination, if any.
fn find_end(moves: &Vec<MoveData>, e: Rankfile) -> (out: Option<usize>)
    ensures
        out matches Some(k) ==> k < moves@.len() && moves.deep_view()[k as int].end == e,
        out is None ==> forall|j: int|
            0 <= j < moves@.len() ==> (#[trigger] moves.deep_view()[j]).end != e,
{
    let mut idx: usize = 0;
    while idx < moves.len()
        invariant
            0 <= idx <= moves@.len(),
            forall|j: int| 0 <= j < idx ==> (#[trigger] moves.deep_view()[j]).end != e,
        decreases moves@.len() - idx,
    {
        if moves[idx].end == e {
            return Some(idx);
        }
        idx = idx + 1;
    }
    None
}

/// Merges an extension of proposed moves into the accumulated list, one
/// move at a time: a destination already present keeps its single entry
/// and gains the union of the capture sets; a new destination is appended.
pub fn merge_moves(moves: &mut Vec<MoveData>, extension: &Vec<MoveData>)
    requires
        ends_unique(old(moves).deep_view()),
    ensures
        final(moves).deep_view() == merge_all(old(moves).deep_view(), extension.deep_view()),
        ends_unique(final(moves).deep_view()),
{
    let mut i: usize = 0;
    while i < extension.len()
        invariant
            0 <= i <= extension@.len(),
            moves.deep_view() == merge_upto(
                old(moves).deep_view(),
                extension.deep_view(),
                i as int,
            ),
            ends_unique(moves.deep_view()),
        decreases extension@.len() - i,
    {
        let e = extension[i].end;
        let ghost dv = moves.deep_view();
        let ghost m = extension.deep_view()[i as int];
        proof {
            lemma_merge_one_unique(dv, m);
        }
        match find_end(moves, e) {
            Some(k) => {
                let s0 = moves[k].start;
                let e0 = moves[k].end;
                let merged = union_caps(&moves[k].captures, &extension[i].captures);
                let updated = MoveData { start: s0, end: e0, captures: merged };
                proof {
                    let k0 = choose|k0: int| 0 <= k0 < dv.len() && (#[trigger] dv[k0]).end
                        == m.end;
                    lemma_unique_end_index(dv, k0, k as int);
                    assert(merge_one(dv, m) == dv.update(
                        k as int,
                        SpecMove {
                            start: dv[k as int].start,
                            end: dv[k as int].end,
                            caps: cap_union(dv[k as int].caps, m.caps),
                        },
                    ));
                    assert(updated@ == merge_one(dv, m)[k as int]);
                }
                moves.set(k, updated);
                proof {
                    assert(moves.deep_view() =~= merge_one(dv, m));
                }
            },
            None => {
                let appended = copy_move(&extension[i]);
                proof {
                    if exists|k: int| 0 <= k < dv.len() && (#[trigger] dv[k]).end == m.end {
                        let k = choose|k: int| 0 <= k < dv.len() && (#[trigger] dv[k]).end
                            == m.end;
                        assert(dv[k].end != e);
                        assert(false);
                    }
                    assert(merge_one(dv, m) == dv.push(m));
                }
                moves.push(appended);
                proof {
                    assert(moves.deep_view() =~= merge_one(dv, m));
                }
            },
        }
        i = i + 1;
    }
}

/// Keeps the proposed moves whose destination square holds a piece of type
/// `t`, in order.
fn filter_by_type(board: &GameBoard, moves: &Vec<MoveData>, t: UltimaPieceType) -> (out: Vec<
    MoveData,
>)
    requires
        board.wf(),
    ensures
        out.deep_view() == type_filter(*board, moves.deep_view(), t),
{
    let mut out: Vec<MoveData> = Vec::new();
    let mut i: usize = 0;
    while i < moves.len()
        invariant
            0 <= i <= moves@.len(),
            board.wf(),
            out.deep_view() == type_filter_upto(*board, moves.deep_view(), t, i as int),
        decreases moves@.len() - i,
    {
        let mut keep = false;
        match board.get_square(moves[i].end) {
            Some(p) => {
                if p.piece_type == t {
                    keep = true;
                }
            },
            None => (),
        }
        if keep {
            let kept = copy_move(&moves[i]);
            proof {
                assert(out.deep_view().push(kept@) =~= type_filter_upto(
                    *board,
                    moves.deep_view(),
                    t,
                    i + 1,
                ));
            }
            out.push(kept);
            proof {
                assert(out.deep_view() =~= type_filter_upto(*board, moves.deep_view(), t, i + 1));
            }
        }
        i = i + 1;
    }
    out
}

/// All moves of a Chameleon of `color` at `start`: the five sub-movers'
/// proposals, each kept only where the destination holds the matching
/// piece type, merged by destination, then the Chameleon's own sliding
/// moves to empty squares.
pub fn generate_moves(board: &GameBoard, start: Rankfile, color: PlayerColor) -> (out: Vec<
    MoveData,
>)
    requires
        board.wf(),
    ensures
        out.deep_view() == chameleon_moves(*board, start, color),
{
    let mut moves: Vec<MoveData> = Vec::new();
    proof {
        assert(moves.deep_view() =~= Seq::<SpecMove>::empty());
    }

    let as_pawn = pawn::move_generator_iter(board, start, color);
    let as_pawn = filter_by_type(board, &as_pawn, UltimaPieceType::Pawn);
    merge_moves(&mut moves, &as_pawn);

    let as_king = king::generate_moves_naive(board, start, color);
    let as_king = filter_by_type(board, &as_king, UltimaPieceType::King);
    merge_moves(&mut moves, &as_king);

    let as_leaper = longleaper::generate_moves(board, start, color);
    let as_leaper = filter_by_type(board, &as_leaper, UltimaPieceType::Longleaper);
    merge_moves(&mut moves, &as_leaper);

    let as_withdrawer = withdrawer::move_generator_iter(board, start, color);
    let as_withdrawer = filter_by_type(board, &as_withdrawer, UltimaPieceType::Withdrawer);
    merge_moves(&mut moves, &as_withdrawer);

    let as_coordinator = coordinator::move_generator_iter(board, start, color);
    let as_coordinator = filter_by_type(board, &as_coordinator, UltimaPieceType::Coordinator);
    merge_moves(&mut moves, &as_coordinator);

    let dirs = Rankfile::all_directions();
    let native = slider::generate(board, start, color, slider::CaptureRule::NoCapture, &dirs);
    merge_moves(&mut moves, &native);

    moves
}

} // verus!
