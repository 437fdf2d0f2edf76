//! The Longleaper: steps outward along each of the 8 directions. An empty
//! square is a legal, non-capturing landing. A square of the mover's own
//! colour ends the ray. A single enemy piece may be leapt: the next square,
//! if empty, is a legal destination whose capture set gains that enemy
//! square, and the scan continues — so one move may leap and capture
//! several enemies in sequence along one ray, its capture set growing with
//! each leap. Two enemies on adjacent squares end the ray: there is no
//! square to land on between them.

use vstd::prelude::*;

use crate::board::GameBoard;
use crate::moves::{copy_rf_vec, MoveData, SpecMove};
use crate::piece::PlayerColor;
use crate::rankfile::{dirs8_seq, dstep, in_bounds, rf_at, Rankfile};

verus! {

broadcast use crate::board::lemma_square_at_off_board;

/// The rest of a Longleaper ray scanned from (r, f): `leapt` records that
/// (r, f) itself holds an enemy just leapt, and `caps` the enemy squares
/// leapt so far. An empty next square yields a landing whose capture set is
/// `caps`, extended with (r, f) when it was leapt; a friendly next square,
/// or an enemy immediately behind a leapt one, ends the ray.
pub open spec fn leaper_ray(
    b: GameBoard,
    start: Rankfile,
    color: PlayerColor,
    r: int,
    f: int,
    dr: int,
    df: int,
    leapt: bool,
    caps: Seq<Rankfile>,
    fuel: nat,
) -> Seq<SpecMove>
    decreases fuel,
{
    if fuel == 0 {
        Seq::empty()
    } else {
        let r2 = r + dr;
        let f2 = f + df;
        if !in_bounds(r2, f2) {
            Seq::empty()
        } else {
            match b.square_at(r2, f2) {
                Some(p) => if p.color == color || leapt {
                    Seq::empty()
                } else {
                    leaper_ray(b, start, color, r2, f2, dr, df, true, caps, (fuel - 1) as nat)
                },
                None => {
                    let caps2 = if leapt {
                        caps.push(rf_at(r, f))
                    } else {
                        caps
                    };
                    seq![(SpecMove { start, end: rf_at(r2, f2), caps: caps2 })] + leaper_ray(
                        b,
                        start,
                        color,
                        r2,
                        f2,
                        dr,
                        df,
                        false,
                        caps2,
                        (fuel - 1) as nat,
                    )
                },
            }
        }
    }
}

/// The Longleaper's moves over the first `n` of the 8 directions, one whole
/// ray per direction, in direction order.
pub open spec fn leaper_moves_upto(
    b: GameBoard,
    start: Rankfile,
    color: PlayerColor,
    n: int,
) -> Seq<SpecMove>
    decreases n,
{
    if n <= 0 {
        Seq::empty()
    } else {
        let s = dstep(dirs8_seq()[n - 1]);
        leaper_moves_upto(b, start, color, n - 1) + leaper_ray(
            b,
            start,
            color,
            start.rank_idx(),
            start.file_idx(),
            s.0,
            s.1,
            false,
            Seq::empty(),
            7,
        )
    }
}

/// All moves of a Longleaper of `color` at `start`.
pub open spec fn leaper_moves(b: GameBoard, start: Rankfile, color: PlayerColor) -> Seq<SpecMove> {
    leaper_moves_upto(b, start, color, 8)
}

/// A prefix of a prefix is a prefix.
proof fn lemma_prefix_transitive(a: Seq<Rankfile>, b: Seq<Rankfile>, c: Seq<Rankfile>)
    requires
        a.is_prefix_of(b),
        b.is_prefix_of(c),
    ensures
        a.is_prefix_of(c),
{
    assert(a =~= c.take(a.len() as int));
}

/// Law (cumulative leap captures): along one Longleaper ray, every
/// landing's capture set begins with the accumulated captures `caps`, and
/// the capture set of each landing is a prefix of the capture set of every
/// later landing on the same ray — capture sets only grow deeper along the
/// ray.
pub proof fn lemma_leaper_ray_caps_cumulative(
    b: GameBoard,
    start: Rankfile,
    color: PlayerColor,
    r: int,
    f: int,
    dr: int,
    df: int,
    leapt: bool,
    caps: Seq<Rankfile>,
    fuel: nat,
)
    ensures
        forall|k: int|
            0 <= k < leaper_ray(b, start, color, r, f, dr, df, leapt, caps, fuel).len()
                ==> caps.is_prefix_of(
                (#[trigger] leaper_ray(b, start, color, r, f, dr, df, leapt, caps, fuel)[k]).caps,
            ),
        forall|k1: int, k2: int|
            0 <= k1 <= k2 < leaper_ray(b, start, color, r, f, dr, df, leapt, caps, fuel).len()
                ==> (#[trigger] leaper_ray(b, start, color, r, f, dr, df, leapt, caps, fuel)[k1]).caps.is_prefix_of(
                (#[trigger] leaper_ray(b, start, color, r, f, dr, df, leapt, caps, fuel)[k2]).caps,
            ),
    decreases fuel,
{
    let ray = leaper_ray(b, start, color, r, f, dr, df, leapt, caps, fuel);
    if fuel == 0 {
    } else {
        let r2 = r + dr;
        let f2 = f + df;
        if !in_bounds(r2, f2) {
        } else {
            match b.square_at(r2, f2) {
                Some(p) => {
                    if p.color == color || leapt {
                    } else {
                        lemma_leaper_ray_caps_cumulative(
                            b,
                            start,
                            color,
                            r2,
                            f2,
                            dr,
                            df,
                            true,
                            caps,
                            (fuel - 1) as nat,
                        );
                    }
                },
                None => {
                    let caps2 = if leapt {
                        caps.push(rf_at(r, f))
                    } else {
                        caps
                    };
                    let rest = leaper_ray(
                        b,
                        start,
                        color,
                        r2,
                        f2,
                        dr,
                        df,
                        false,
                        caps2,
                        (fuel - 1) as nat,
                    );
                    lemma_leaper_ray_caps_cumulative(
                        b,
                        start,
                        color,
                        r2,
                        f2,
                        dr,
                        df,
                        false,
                        caps2,
                        (fuel - 1) as nat,
                    );
                    assert(caps.is_prefix_of(caps2)) by {
                        assert(caps =~= caps2.take(caps.len() as int));
                    }
                    assert forall|k: int| 0 <= k < ray.len() implies caps.is_prefix_of(
                        (#[trigger] ray[k]).caps,
                    ) by {
                        if k == 0 {
                            assert(ray[0].caps == caps2);
                        } else {
                            assert(ray[k].caps == rest[k - 1].caps);
                            assert(caps2.is_prefix_of(rest[k - 1].caps));
                            lemma_prefix_transitive(caps, caps2, rest[k - 1].caps);
                        }
                    }
                    assert forall|k1: int, k2: int| 0 <= k1 <= k2 < ray.len() implies (
                    #[trigger] ray[k1]).caps.is_prefix_of((#[trigger] ray[k2]).caps) by {
                        if k1 == 0 {
                            if k2 == 0 {
                                assert(ray[0].caps =~= ray[0].caps.take(ray[0].caps.len() as int));
                            } else {
                                assert(ray[k2].caps == rest[k2 - 1].caps);
                                assert(caps2.is_prefix_of(rest[k2 - 1].caps));
                            }
                        } else {
                            assert(ray[k1].caps == rest[k1 - 1].caps);
                            assert(ray[k2].caps == rest[k2 - 1].caps);
                        }
                    }
                },
            }
        }
    }
}

/// All moves of a Longleaper of `color` at `start`: every reachable landing
/// square along each ray, with the cumulative set of enemy squares leapt on
/// the way there.
pub fn generate_moves(board: &GameBoard, start: Rankfile, color: PlayerColor) -> (out: Vec<
    MoveData,
>)
    requires
        board.wf(),
    ensures
        out.deep_view() == leaper_moves(*board, start, color),
{
    let dirs = Rankfile::all_directions();
    let mut moves: Vec<MoveData> = Vec::new();
    let mut i: usize = 0;
    while i < 8
        invariant
            0 <= i <= 8,
            board.wf(),
            dirs@ == dirs8_seq(),
            moves.deep_view() == leaper_moves_upto(*board, start, color, i as int),
        decreases 8 - i,
    {
        let d = dirs[i];
        let (mut r, mut f) = start.to_signed_coords();
        let mut cur = start;
        let mut leapt = false;
        let mut caps: Vec<Rankfile> = Vec::new();
        let mut step: usize = 0;
        loop
            invariant_except_break
                0 <= step <= 7,
                0 <= i < 8,
                board.wf(),
                d == dirs8_seq()[i as int],
                in_bounds(r as int, f as int),
                cur.rank_idx() == r as int,
                cur.file_idx() == f as int,
                leaper_moves_upto(*board, start, color, i + 1) == moves.deep_view() + leaper_ray(
                    *board,
                    start,
                    color,
                    r as int,
                    f as int,
                    d.0 as int,
                    d.1 as int,
                    leapt,
                    caps@,
                    (7 - step) as nat,
                ),
            ensures
                moves.deep_view() == leaper_moves_upto(*board, start, color, i + 1),
            decreases 7 - step,
        {
            if step >= 7 {
                proof {
                    assert(moves.deep_view() + leaper_ray(
                        *board,
                        start,
                        color,
                        r as int,
                        f as int,
                        d.0 as int,
                        d.1 as int,
                        leapt,
                        caps@,
                        0nat,
                    ) =~= moves.deep_view());
                }
                break ;
            }
            let nr = r + d.0;
            let nf = f + d.1;
            match Rankfile::from(nr, nf) {
                None => {
                    proof {
                        assert(moves.deep_view() + leaper_ray(
                            *board,
                            start,
                            color,
                            r as int,
                            f as int,
                            d.0 as int,
                            d.1 as int,
                            leapt,
                            caps@,
                            (7 - step) as nat,
                        ) =~= moves.deep_view());
                    }
                    break ;
                },
                Some(a) => {
                    match board.get_square(a) {
                        Some(p) => {
                            if p.color == color || leapt {
                                proof {
                                    assert(moves.deep_view() + leaper_ray(
                                        *board,
                                        start,
                                        color,
                                        r as int,
                                        f as int,
                                        d.0 as int,
                                        d.1 as int,
                                        leapt,
                                        caps@,
                                        (7 - step) as nat,
                                    ) =~= moves.deep_view());
                                }
                                break ;
                            }
                            leapt = true;
                            cur = a;
                            r = nr;
                            f = nf;
                        },
                        None => {
                            if leapt {
                                proof {
                                    assert(rf_at(r as int, f as int) == cur);
                                }
                                caps.push(cur);
                            }
                            let captures = copy_rf_vec(&caps);
                            let m = MoveData { start, end: a, captures };
                            proof {
                                let ghost fuel = (7 - step) as nat;
                                let ghost rest = leaper_ray(
                                    *board,
                                    start,
                                    color,
                                    nr as int,
                                    nf as int,
                                    d.0 as int,
                                    d.1 as int,
                                    false,
                                    caps@,
                                    (fuel - 1) as nat,
                                );
                                assert(m@ == (SpecMove {
                                    start,
                                    end: rf_at(nr as int, nf as int),
                                    caps: caps@,
                                }));
                                assert(moves.deep_view() + (seq![m@] + rest) =~= (
                                moves.deep_view() + seq![m@]) + rest);
                                assert(moves.deep_view().push(m@) =~= moves.deep_view() + seq![
                                    m@,
                                ]);
                            }
                            moves.push(m);
                            leapt = false;
                            cur = a;
                            r = nr;
                            f = nf;
                        },
                    }
                },
            }
            step = step + 1;
        }
        i = i + 1;
    }
    moves
}

} // verus!
