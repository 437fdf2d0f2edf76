//! The board: an 8 by 8 grid of optional pieces plus cached lists of king
//! locations per side, with bounds-safe reads and writes and line-of-sight
//! ray casting.
//!
//! The king-location lists are established at construction only, by design:
//! writes and move application do not maintain them, so they may go stale
//! once a King moves or is captured (see `execute_move`). The contracts
//! here state that choice explicitly.

use vstd::prelude::*;

use crate::piece::{PlayerColor, UltimaPiece, UltimaPieceType};
use crate::rankfile::{in_bounds, rf_at, unit_dir, Direction, File, Rank, Rankfile};

verus! {

/// The contents of one square: a piece, or nothing.
pub type Square = Option<UltimaPiece>;

/// An 8 by 8 board. The grid is stored rank-major: the square at rank index
/// `r` and file index `f` lives at position `r * 8 + f`.
pub struct GameBoard {
    board: Vec<Square>,
    black_king_locs: Vec<Rankfile>,
    white_king_locs: Vec<Rankfile>,
}

/// The type on White's back rank at file index `f` in the canonical start
/// position, from the a-file: Immobilizer, Longleaper, Chameleon, King,
/// Withdrawer, Chameleon, Longleaper, Coordinator.
pub open spec fn white_back_type(f: int) -> UltimaPieceType {
    if f == 0 {
        UltimaPieceType::Immobilizer
    } else if f == 1 {
        UltimaPieceType::Longleaper
    } else if f == 2 {
        UltimaPieceType::Chameleon
    } else if f == 3 {
        UltimaPieceType::King
    } else if f == 4 {
        UltimaPieceType::Withdrawer
    } else if f == 5 {
        UltimaPieceType::Chameleon
    } else if f == 6 {
        UltimaPieceType::Longleaper
    } else {
        UltimaPieceType::Coordinator
    }
}

/// The type on Black's back rank at file index `f` in the canonical start
/// position; the sides mirror across the board's centre, so Kings face
/// Withdrawers.
pub open spec fn black_back_type(f: int) -> UltimaPieceType {
    if f == 0 {
        UltimaPieceType::Coordinator
    } else if f == 1 {
        UltimaPieceType::Longleaper
    } else if f == 2 {
        UltimaPieceType::Chameleon
    } else if f == 3 {
        UltimaPieceType::Withdrawer
    } else if f == 4 {
        UltimaPieceType::King
    } else if f == 5 {
        UltimaPieceType::Chameleon
    } else if f == 6 {
        UltimaPieceType::Longleaper
    } else {
        UltimaPieceType::Immobilizer
    }
}

/// The contents of the square at (r, f) in the canonical start position:
/// back ranks as above, Pawns on each side's second rank, all else empty.
pub open spec fn start_square_at(r: int, f: int) -> Square {
    if r == 0 {
        Some(UltimaPiece { piece_type: white_back_type(f), color: PlayerColor::White })
    } else if r == 1 {
        Some(UltimaPiece { piece_type: UltimaPieceType::Pawn, color: PlayerColor::White })
    } else if r == 6 {
        Some(UltimaPiece { piece_type: UltimaPieceType::Pawn, color: PlayerColor::Black })
    } else if r == 7 {
        Some(UltimaPiece { piece_type: black_back_type(f), color: PlayerColor::Black })
    } else {
        None
    }
}

/// Positions off the board always read as empty: only an on-board square
/// can hold a piece.
pub broadcast proof fn lemma_square_at_off_board(b: GameBoard, r: int, f: int)
    ensures
        !in_bounds(r, f) ==> #[trigger] b.square_at(r, f) is None,
{
}

impl GameBoard {
    /// Well-formedness: the grid holds exactly one square per board position.
    pub closed spec fn wf(self) -> bool {
        self.board@.len() == 64
    }

    /// The contents of the square at rank index `r` and file index `f`;
    /// positions off the board read as empty.
    pub closed spec fn square_at(self, r: int, f: int) -> Square {
        if in_bounds(r, f) {
            self.board@[r * 8 + f]
        } else {
            None
        }
    }

    /// The contents of the square at a validated coordinate.
    pub open spec fn at(self, rf: Rankfile) -> Square {
        self.square_at(rf.rank_idx(), rf.file_idx())
    }

    /// The cached king locations of a side, in insertion order.
    pub closed spec fn king_locs(self, color: PlayerColor) -> Seq<Rankfile> {
        match color {
            PlayerColor::White => self.white_king_locs@,
            PlayerColor::Black => self.black_king_locs@,
        }
    }

    /// The line of sight from (r, f) in direction (dr, df): the squares
    /// strictly beyond (r, f), walking at most `fuel` steps, stopping at the
    /// board edge or just before the first occupied square. From any square
    /// on the board, 7 steps of a unit direction reach the edge, so `fuel`
    /// of 7 makes this the maximal run of empty squares.
    pub open spec fn los_from(self, r: int, f: int, dr: int, df: int, fuel: nat) -> Seq<Rankfile>
        decreases fuel,
    {
        if fuel == 0 {
            Seq::empty()
        } else if !in_bounds(r + dr, f + df) || self.square_at(r + dr, f + df) is Some {
            Seq::empty()
        } else {
            seq![rf_at(r + dr, f + df)] + self.los_from(r + dr, f + df, dr, df, (fuel - 1) as nat)
        }
    }

    /// The line of sight outward from `start` in direction `d`: every empty
    /// square up to, and not including, the first occupied square or the
    /// board edge.
    pub open spec fn los_seq(self, start: Rankfile, d: Direction) -> Seq<Rankfile> {
        self.los_from(start.rank_idx(), start.file_idx(), d.0 as int, d.1 as int, 7)
    }

    pub fn get_square(&self, rf: Rankfile) -> (out: Square)
        requires
            self.wf(),
        ensures
            out == self.at(rf),
    {
        let (r, f) = rf.to_unsigned_coords();
        self.board[r * 8 + f]
    }

    /// Reads the square at raw indices; positions off the board read as
    /// empty.
    pub fn get_square_from_coords(&self, r: i8, f: i8) -> (out: Square)
        requires
            self.wf(),
        ensures
            out == self.square_at(r as int, f as int),
    {
        let rf = match Rankfile::from(r, f) {
            None => return None,
            Some(rf) => rf,
        };
        self.get_square(rf)
    }

    /// A board with every square empty and no kings tracked.
    pub fn new_empty() -> (out: GameBoard)
        ensures
            out.wf(),
            forall|r: int, f: int| in_bounds(r, f) ==> #[trigger] out.square_at(r, f) is None,
            out.king_locs(PlayerColor::White) == Seq::<Rankfile>::empty(),
            out.king_locs(PlayerColor::Black) == Seq::<Rankfile>::empty(),
    {
        let mut board: Vec<Square> = Vec::new();
        let mut i: usize = 0;
        while i < 64
            invariant
                0 <= i <= 64,
                board@.len() == i,
                forall|j: int| 0 <= j < i ==> #[trigger] board@[j] is None,
            decreases 64 - i,
        {
            board.push(None);
            i = i + 1;
        }
        GameBoard { board, black_king_locs: Vec::new(), white_king_locs: Vec::new() }
    }

    /// The piece of the canonical start position at (r, f), by exhaustive
    /// cases.
    fn start_square(r: usize, f: usize) -> (out: Square)
        requires
            r < 8,
            f < 8,
        ensures
            out == start_square_at(r as int, f as int),
    {
        if r == 0 {
            let piece_type = if f == 0 {
                UltimaPieceType::Immobilizer
            } else if f == 1 {
                UltimaPieceType::Longleaper
            } else if f == 2 {
                UltimaPieceType::Chameleon
            } else if f == 3 {
                UltimaPieceType::King
            } else if f == 4 {
                UltimaPieceType::Withdrawer
            } else if f == 5 {
                UltimaPieceType::Chameleon
            } else if f == 6 {
                UltimaPieceType::Longleaper
            } else {
                UltimaPieceType::Coordinator
            };
            Some(UltimaPiece { piece_type, color: PlayerColor::White })
        } else if r == 1 {
            Some(UltimaPiece { piece_type: UltimaPieceType::Pawn, color: PlayerColor::White })
        } else if r == 6 {
            Some(UltimaPiece { piece_type: UltimaPieceType::Pawn, color: PlayerColor::Black })
        } else if r == 7 {
            let piece_type = if f == 0 {
                UltimaPieceType::Coordinator
            } else if f == 1 {
                UltimaPieceType::Longleaper
            } else if f == 2 {
                UltimaPieceType::Chameleon
            } else if f == 3 {
                UltimaPieceType::Withdrawer
            } else if f == 4 {
                UltimaPieceType::King
            } else if f == 5 {
                UltimaPieceType::Chameleon
            } else if f == 6 {
                UltimaPieceType::Longleaper
            } else {
                UltimaPieceType::Immobilizer
            };
            Some(UltimaPiece { piece_type, color: PlayerColor::Black })
        } else {
            None
        }
    }

    /// The canonical Ultima start position, with the White King on d1 and
    /// the Black King on e8, and both king caches primed accordingly.
    pub fn new_in_start_position() -> (out: GameBoard)
        ensures
            out.wf(),
            forall|r: int, f: int|
                in_bounds(r, f) ==> #[trigger] out.square_at(r, f) == start_square_at(r, f),
            out.king_locs(PlayerColor::White) == seq![
                (Rankfile { rank: Rank::R1, file: File::D }),
            ],
            out.king_locs(PlayerColor::Black) == seq![
                (Rankfile { rank: Rank::R8, file: File::E }),
            ],
    {
        let mut board: Vec<Square> = Vec::new();
        let mut r: usize = 0;
        while r < 8
            invariant
                0 <= r <= 8,
                board@.len() == r * 8,
                forall|r2: int, f2: int|
                    0 <= r2 < r && 0 <= f2 < 8 ==> #[trigger] board@[r2 * 8 + f2]
                        == start_square_at(r2, f2),
            decreases 8 - r,
        {
            let mut f: usize = 0;
            while f < 8
                invariant
                    0 <= r < 8,
                    0 <= f <= 8,
                    board@.len() == r * 8 + f,
                    forall|r2: int, f2: int|
                        0 <= r2 < r && 0 <= f2 < 8 ==> #[trigger] board@[r2 * 8 + f2]
                            == start_square_at(r2, f2),
                    forall|f2: int|
                        0 <= f2 < f ==> #[trigger] board@[r * 8 + f2] == start_square_at(
                            r as int,
                            f2,
                        ),
                decreases 8 - f,
            {
                board.push(Self::start_square(r, f));
                f = f + 1;
            }
            r = r + 1;
        }
        let mut white_king_locs: Vec<Rankfile> = Vec::new();
        white_king_locs.push(Rankfile { rank: Rank::R1, file: File::D });
        let mut black_king_locs: Vec<Rankfile> = Vec::new();
        black_king_locs.push(Rankfile { rank: Rank::R8, file: File::E });
        proof {
            assert(white_king_locs@ =~= seq![(Rankfile { rank: Rank::R1, file: File::D })]);
            assert(black_king_locs@ =~= seq![(Rankfile { rank: Rank::R8, file: File::E })]);
        }
        GameBoard { board, black_king_locs, white_king_locs }
    }

    /// The cached king locations of a side. The cache reflects board
    /// contents at construction time only; writes do not maintain it.
    pub fn get_king_locs(&self, color: PlayerColor) -> (out: &Vec<Rankfile>)
        ensures
            out@ == self.king_locs(color),
    {
        match color {
            PlayerColor::White => &self.white_king_locs,
            PlayerColor::Black => &self.black_king_locs,
        }
    }

    /// The line of sight from `start` in direction `dir`, nearest square
    /// first: every empty square up to, and not including, the first
    /// occupied square or the board edge.
    pub fn los(&self, start: Rankfile, dir: Direction) -> (out: Vec<Rankfile>)
        requires
            self.wf(),
            unit_dir(dir),
        ensures
            out@ == self.los_seq(start, dir),
    {
        let (mut r, mut f) = start.to_signed_coords();
        let mut out: Vec<Rankfile> = Vec::new();
        let mut i: usize = 0;
        loop
            invariant_except_break
                0 <= i <= 7,
                out@.len() == i,
                self.wf(),
                unit_dir(dir),
                in_bounds(r as int, f as int),
                self.los_seq(start, dir) == out@ + self.los_from(
                    r as int,
                    f as int,
                    dir.0 as int,
                    dir.1 as int,
                    (7 - i) as nat,
                ),
            ensures
                out@ == self.los_seq(start, dir),
            decreases 7 - i,
        {
            if i >= 7 {
                proof {
                    assert(out@ + self.los_from(
                        r as int,
                        f as int,
                        dir.0 as int,
                        dir.1 as int,
                        0nat,
                    ) =~= out@);
                }
                break ;
            }
            let nr = r + dir.0;
            let nf = f + dir.1;
            match Rankfile::from(nr, nf) {
                Some(a) => {
                    if self.get_square(a).is_some() {
                        proof {
                            assert(self.los_from(
                                r as int,
                                f as int,
                                dir.0 as int,
                                dir.1 as int,
                                (7 - i) as nat,
                            ) =~= Seq::<Rankfile>::empty());
                            assert(out@ + Seq::<Rankfile>::empty() =~= out@);
                        }
                        break ;
                    }
                    proof {
                        let rest = self.los_from(
                            nr as int,
                            nf as int,
                            dir.0 as int,
                            dir.1 as int,
                            (7 - (i + 1)) as nat,
                        );
                        assert(self.los_from(
                            r as int,
                            f as int,
                            dir.0 as int,
                            dir.1 as int,
                            (7 - i) as nat,
                        ) == seq![rf_at(nr as int, nf as int)] + rest);
                        assert((out@ + seq![a]) + rest =~= out@ + (seq![a] + rest));
                        assert(out@.push(a) =~= out@ + seq![a]);
                    }
                    out.push(a);
                    r = nr;
                    f = nf;
                },
                None => {
                    proof {
                        assert(self.los_from(
                            r as int,
                            f as int,
                            dir.0 as int,
                            dir.1 as int,
                            (7 - i) as nat,
                        ) =~= Seq::<Rankfile>::empty());
                        assert(out@ + Seq::<Rankfile>::empty() =~= out@);
                    }
                    break ;
                },
            }
            i = i + 1;
        }
        out
    }

    /// Writes a square. Performs no validation of game rules, and does not
    /// touch the king-location caches even when a King is written or
    /// overwritten.
    pub fn set_square(&mut self, rf: Rankfile, value: Square)
        requires
            old(self).wf(),
        ensures
            final(self).wf(),
            forall|r: int, f: int|
                in_bounds(r, f) ==> #[trigger] final(self).square_at(r, f) == (if r
                    == rf.rank_idx() && f == rf.file_idx() {
                    value
                } else {
                    old(self).square_at(r, f)
                }),
            final(self).king_locs(PlayerColor::White) == old(self).king_locs(PlayerColor::White),
            final(self).king_locs(PlayerColor::Black) == old(self).king_locs(PlayerColor::Black),
    {
        let (r, f) = rf.to_unsigned_coords();
        self.board.set(r * 8 + f, value);
    }
}

} // verus!
