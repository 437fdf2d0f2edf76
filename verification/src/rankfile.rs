//! The coordinate model: ranks 1..8, files A..H, validated squares and the
//! two fixed direction sets. Constructing a `Rankfile` is the sole admission
//! gate for board indexing: a coordinate outside the board yields no value,
//! so every `Rankfile` denotes a square that exists.

use vstd::prelude::*;

verus! {

/// Whether the pair of zero-based indices (rank, file) lies on the board.
pub open spec fn in_bounds(r: int, f: int) -> bool {
    0 <= r < 8 && 0 <= f < 8
}

/// A rank of the board, `R1` nearest to White.
#[derive(PartialEq, Eq, Hash, Clone, Copy, Debug, Structural)]
pub enum Rank {
    R1,
    R2,
    R3,
    R4,
    R5,
    R6,
    R7,
    R8,
}

/// A file of the board (a chess file, not a system file).
#[derive(PartialEq, Eq, Hash, Clone, Copy, Debug, Structural)]
pub enum File {
    A,
    B,
    C,
    D,
    E,
    F,
    G,
    H,
}

impl Rank {
    /// The zero-based index of this rank.
    pub open spec fn idx(self) -> int {
        match self {
            Rank::R1 => 0,
            Rank::R2 => 1,
            Rank::R3 => 2,
            Rank::R4 => 3,
            Rank::R5 => 4,
            Rank::R6 => 5,
            Rank::R7 => 6,
            Rank::R8 => 7,
        }
    }

    /// The rank at index `i`; total, with indices at or above 7 mapped to `R8`.
    pub open spec fn at_idx(i: int) -> Rank {
        if i <= 0 {
            Rank::R1
        } else if i == 1 {
            Rank::R2
        } else if i == 2 {
            Rank::R3
        } else if i == 3 {
            Rank::R4
        } else if i == 4 {
            Rank::R5
        } else if i == 5 {
            Rank::R6
        } else if i == 6 {
            Rank::R7
        } else {
            Rank::R8
        }
    }

    /// The rank at index `i`, or no value outside 0..8.
    pub open spec fn from_idx(i: int) -> Option<Rank> {
        if 0 <= i < 8 {
            Some(Rank::at_idx(i))
        } else {
            None
        }
    }

    pub fn as_index(&self) -> (i: i8)
        ensures
            i as int == self.idx(),
    {
        match self {
            Rank::R1 => 0,
            Rank::R2 => 1,
            Rank::R3 => 2,
            Rank::R4 => 3,
            Rank::R5 => 4,
            Rank::R6 => 5,
            Rank::R7 => 6,
            Rank::R8 => 7,
        }
    }

    pub fn new_if_exists(r: i8) -> (out: Option<Self>)
        ensures
            out == Rank::from_idx(r as int),
    {
        match r {
            0 => Some(Rank::R1),
            1 => Some(Rank::R2),
            2 => Some(Rank::R3),
            3 => Some(Rank::R4),
            4 => Some(Rank::R5),
            5 => Some(Rank::R6),
            6 => Some(Rank::R7),
            7 => Some(Rank::R8),
            _ => None,
        }
    }
}

impl File {
    /// The zero-based index of this file.
    pub open spec fn idx(self) -> int {
        match self {
            File::A => 0,
            File::B => 1,
            File::C => 2,
            File::D => 3,
            File::E => 4,
            File::F => 5,
            File::G => 6,
            File::H => 7,
        }
    }

    /// The file at index `i`; total, with indices at or above 7 mapped to `H`.
    pub open spec fn at_idx(i: int) -> File {
        if i <= 0 {
            File::A
        } else if i == 1 {
            File::B
        } else if i == 2 {
            File::C
        } else if i == 3 {
            File::D
        } else if i == 4 {
            File::E
        } else if i == 5 {
            File::F
        } else if i == 6 {
            File::G
        } else {
            File::H
        }
    }

    /// The file at index `i`, or no value outside 0..8.
    pub open spec fn from_idx(i: int) -> Option<File> {
        if 0 <= i < 8 {
            Some(File::at_idx(i))
        } else {
            None
        }
    }

    pub fn as_index(&self) -> (i: i8)
        ensures
            i as int == self.idx(),
    {
        match self {
            File::A => 0,
            File::B => 1,
            File::C => 2,
            File::D => 3,
            File::E => 4,
            File::F => 5,
            File::G => 6,
            File::H => 7,
        }
    }

    pub fn new_if_exists(f: i8) -> (out: Option<Self>)
        ensures
            out == File::from_idx(f as int),
    {
        match f {
            0 => Some(File::A),
            1 => Some(File::B),
            2 => Some(File::C),
            3 => Some(File::D),
            4 => Some(File::E),
            5 => Some(File::F),
            6 => Some(File::G),
            7 => Some(File::H),
            _ => None,
        }
    }
}

/// A validated square coordinate: a (rank, file) pair that is on the board
/// by construction.
#[derive(PartialEq, Eq, Hash, Clone, Copy, Debug, Structural)]
pub struct Rankfile {
    pub rank: Rank,
    pub file: File,
}

/// A (rank delta, file delta) step. The engine only ever walks the two fixed
/// unit-vector sets below.
pub type Direction = (i8, i8);

/// Whether each component of a direction is one of -1, 0, 1.
pub open spec fn unit_dir(d: Direction) -> bool {
    -1 <= d.0 <= 1 && -1 <= d.1 <= 1
}

/// The 8 queen-like directions, in the fixed order the movers walk them.
pub open spec fn dirs8_seq() -> Seq<Direction> {
    seq![
        (1i8, 0i8),
        (1i8, -1i8),
        (0i8, -1i8),
        (-1i8, -1i8),
        (-1i8, 0i8),
        (-1i8, 1i8),
        (0i8, 1i8),
        (1i8, 1i8),
    ]
}

/// The 4 orthogonal directions, in the fixed order the movers walk them.
pub open spec fn dirs4_seq() -> Seq<Direction> {
    seq![(1i8, 0i8), (0i8, -1i8), (-1i8, 0i8), (0i8, 1i8)]
}

/// A direction's components as mathematical integers.
pub open spec fn dstep(d: Direction) -> (int, int) {
    (d.0 as int, d.1 as int)
}

/// The square at the given in-bounds indices.
pub open spec fn rf_at(r: int, f: int) -> Rankfile {
    Rankfile { rank: Rank::at_idx(r), file: File::at_idx(f) }
}

/// The square at the given indices, or no value off the board.
pub open spec fn rf_from(r: int, f: int) -> Option<Rankfile> {
    if in_bounds(r, f) {
        Some(rf_at(r, f))
    } else {
        None
    }
}

/// The squares one step from `c` in each of the first `n` of the 8
/// directions, skipping steps that leave the board.
pub open spec fn surrounding_upto(c: Rankfile, n: int) -> Seq<Rankfile>
    decreases n,
{
    if n <= 0 {
        Seq::empty()
    } else {
        let prev = surrounding_upto(c, n - 1);
        let d = dstep(dirs8_seq()[n - 1]);
        match rf_from(c.rank_idx() + d.0, c.file_idx() + d.1) {
            Some(a) => prev.push(a),
            None => prev,
        }
    }
}

/// The squares surrounding `c`: its at most 8 immediate neighbours.
pub open spec fn surrounding(c: Rankfile) -> Seq<Rankfile> {
    surrounding_upto(c, 8)
}

/// The squares strictly beyond index (r, f) in direction (dr, df), walking
/// at most `fuel` steps and stopping at the board edge. From any square on
/// the board, 7 steps of a unit direction reach the edge, so `fuel` of 7
/// makes this the whole ray.
pub open spec fn ray_upto(r: int, f: int, dr: int, df: int, fuel: nat) -> Seq<Rankfile>
    decreases fuel,
{
    if fuel == 0 {
        Seq::empty()
    } else if !in_bounds(r + dr, f + df) {
        Seq::empty()
    } else {
        seq![rf_at(r + dr, f + df)] + ray_upto(r + dr, f + df, dr, df, (fuel - 1) as nat)
    }
}

/// The whole ray of squares outward from `c` in direction `d`.
pub open spec fn ray_from(c: Rankfile, d: Direction) -> Seq<Rankfile> {
    ray_upto(c.rank_idx(), c.file_idx(), d.0 as int, d.1 as int, 7)
}

/// The rays from `c` along the first `n` of `dirs`, concatenated in order.
pub open spec fn rays_upto(c: Rankfile, dirs: Seq<Direction>, n: int) -> Seq<Rankfile>
    decreases n,
{
    if n <= 0 {
        Seq::empty()
    } else {
        rays_upto(c, dirs, n - 1) + ray_from(c, dirs[n - 1])
    }
}

impl Rankfile {
    /// The zero-based rank index of this square.
    pub open spec fn rank_idx(self) -> int {
        self.rank.idx()
    }

    /// The zero-based file index of this square.
    pub open spec fn file_idx(self) -> int {
        self.file.idx()
    }

    pub fn from(r: i8, f: i8) -> (out: Option<Rankfile>)
        ensures
            out == rf_from(r as int, f as int),
    {
        match (Rank::new_if_exists(r), File::new_if_exists(f)) {
            (Some(rank), Some(file)) => Some(Rankfile { rank, file }),
            _ => None,
        }
    }

    pub fn to_signed_coords(&self) -> (out: (i8, i8))
        ensures
            out.0 as int == self.rank_idx(),
            out.1 as int == self.file_idx(),
    {
        (self.rank.as_index(), self.file.as_index())
    }

    pub fn to_unsigned_coords(&self) -> (out: (usize, usize))
        ensures
            out.0 as int == self.rank_idx(),
            out.1 as int == self.file_idx(),
    {
        let r = self.rank.as_index();
        let f = self.file.as_index();
        (r as usize, f as usize)
    }

    /// The 8 queen-like directions.
    pub fn all_directions() -> (out: Vec<Direction>)
        ensures
            out@ == dirs8_seq(),
    {
        let mut out: Vec<Direction> = Vec::new();
        out.push((1, 0));
        out.push((1, -1));
        out.push((0, -1));
        out.push((-1, -1));
        out.push((-1, 0));
        out.push((-1, 1));
        out.push((0, 1));
        out.push((1, 1));
        proof {
            assert(out@ =~= dirs8_seq());
        }
        out
    }

    /// The 4 orthogonal directions.
    pub fn cardinal_directions() -> (out: Vec<Direction>)
        ensures
            out@ == dirs4_seq(),
    {
        let mut out: Vec<Direction> = Vec::new();
        out.push((1, 0));
        out.push((0, -1));
        out.push((-1, 0));
        out.push((0, 1));
        proof {
            assert(out@ =~= dirs4_seq());
        }
        out
    }

    /// The immediate neighbours of this square, excluding itself, filtered
    /// to the board.
    pub fn surrounding_rankfiles(&self) -> (out: Vec<Rankfile>)
        ensures
            out@ == surrounding(*self),
    {
        let (r, f) = self.to_signed_coords();
        let dirs = Self::all_directions();
        let mut out: Vec<Rankfile> = Vec::new();
        let mut i: usize = 0;
        while i < 8
            invariant
                0 <= i <= 8,
                dirs@ == dirs8_seq(),
                -1 <= r as int <= 8,
                -1 <= f as int <= 8,
                r as int == self.rank_idx(),
                f as int == self.file_idx(),
                out@ == surrounding_upto(*self, i as int),
            decreases 8 - i,
        {
            let d = dirs[i];
            match Rankfile::from(r + d.0, f + d.1) {
                Some(a) => out.push(a),
                None => (),
            }
            i = i + 1;
        }
        out
    }

    /// Every square outward from this one along the 8 directions, to the
    /// board edge, one ray at a time.
    pub fn card_ord_rankfiles(&self) -> (out: Vec<Rankfile>)
        ensures
            out@ == rays_upto(*self, dirs8_seq(), 8),
    {
        let dirs = Self::all_directions();
        let mut out: Vec<Rankfile> = Vec::new();
        let mut i: usize = 0;
        while i < 8
            invariant
                0 <= i <= 8,
                dirs@ == dirs8_seq(),
                out@ == rays_upto(*self, dirs8_seq(), i as int),
            decreases 8 - i,
        {
            let mut ray = self.ray_squares(dirs[i]);
            out.append(&mut ray);
            i = i + 1;
        }
        out
    }

    /// Every square outward from this one along the 4 orthogonal directions,
    /// to the board edge, one ray at a time.
    pub fn card_rankfiles(&self) -> (out: Vec<Rankfile>)
        ensures
            out@ == rays_upto(*self, dirs4_seq(), 4),
    {
        let dirs = Self::cardinal_directions();
        let mut out: Vec<Rankfile> = Vec::new();
        let mut i: usize = 0;
        while i < 4
            invariant
                0 <= i <= 4,
                dirs@ == dirs4_seq(),
                out@ == rays_upto(*self, dirs4_seq(), i as int),
            decreases 4 - i,
        {
            let mut ray = self.ray_squares(dirs[i]);
            out.append(&mut ray);
            i = i + 1;
        }
        out
    }

    /// The ray of squares outward from this one in direction `d`, to the
    /// board edge.
    pub fn ray_squares(&self, d: Direction) -> (out: Vec<Rankfile>)
        requires
            unit_dir(d),
        ensures
            out@ == ray_from(*self, d),
    {
        let (mut r, mut f) = self.to_signed_coords();
        let mut out: Vec<Rankfile> = Vec::new();
        let mut i: usize = 0;
        loop
            invariant_except_break
                0 <= i <= 7,
                out@.len() == i,
                unit_dir(d),
                in_bounds(r as int, f as int),
                ray_from(*self, d) == out@ + ray_upto(
                    r as int,
                    f as int,
                    d.0 as int,
                    d.1 as int,
                    (7 - i) as nat,
                ),
            ensures
                out@ == ray_from(*self, d),
            decreases 7 - i,
        {
            if i >= 7 {
                proof {
                    assert(out@ + ray_upto(r as int, f as int, d.0 as int, d.1 as int, 0nat)
                        =~= out@);
                }
                break ;
            }
            let nr = r + d.0;
            let nf = f + d.1;
            match Rankfile::from(nr, nf) {
                Some(a) => {
                    proof {
                        assert(ray_upto(r as int, f as int, d.0 as int, d.1 as int, (7 - i) as nat)
                            == seq![rf_at(nr as int, nf as int)] + ray_upto(
                            nr as int,
                            nf as int,
                            d.0 as int,
                            d.1 as int,
                            (7 - (i + 1)) as nat,
                        ));
                        assert((out@ + seq![a]) + ray_upto(
                            nr as int,
                            nf as int,
                            d.0 as int,
                            d.1 as int,
                            (7 - (i + 1)) as nat,
                        ) =~= out@ + (seq![a] + ray_upto(
                            nr as int,
                            nf as int,
                            d.0 as int,
                            d.1 as int,
                            (7 - (i + 1)) as nat,
                        )));
                        assert(out@.push(a) =~= out@ + seq![a]);
                    }
                    out.push(a);
                    r = nr;
                    f = nf;
                },
                None => {
                    proof {
                        assert(ray_upto(r as int, f as int, d.0 as int, d.1 as int, (7 - i) as nat)
                            =~= Seq::<Rankfile>::empty());
                        assert(out@ + Seq::<Rankfile>::empty() =~= out@);
                    }
                    break ;
                },
            }
            i = i + 1;
        }
        out
    }
}

/// The rank named by a single character '1'-'8', or no value otherwise.
pub open spec fn rank_of_char(c: char) -> Option<Rank> {
    if '1' <= c <= '8' {
        Some(Rank::at_idx(c as int - '1' as int))
    } else {
        None
    }
}

/// The file named by a single character 'A'-'H' or 'a'-'h', or no value
/// otherwise.
pub open spec fn file_of_char(c: char) -> Option<File> {
    if 'A' <= c <= 'H' {
        Some(File::at_idx(c as int - 'A' as int))
    } else if 'a' <= c <= 'h' {
        Some(File::at_idx(c as int - 'a' as int))
    } else {
        None
    }
}

/// The display character of a rank, '1'-'8'.
pub open spec fn rank_char(r: Rank) -> char {
    match r {
        Rank::R1 => '1',
        Rank::R2 => '2',
        Rank::R3 => '3',
        Rank::R4 => '4',
        Rank::R5 => '5',
        Rank::R6 => '6',
        Rank::R7 => '7',
        Rank::R8 => '8',
    }
}

/// The display character of a file, 'A'-'H'.
pub open spec fn file_char(f: File) -> char {
    match f {
        File::A => 'A',
        File::B => 'B',
        File::C => 'C',
        File::D => 'D',
        File::E => 'E',
        File::F => 'F',
        File::G => 'G',
        File::H => 'H',
    }
}

impl Rankfile {
    /// Parses a square from its rank and file notation tokens: a rank digit
    /// '1'-'8' and a file letter 'A'-'H', case-insensitive. Any other token
    /// yields no value.
    pub fn from_strings(r: String, f: String) -> (out: Option<Rankfile>)
        ensures
            out matches Some(a) ==> r@.len() == 1 && f@.len() == 1 && rank_of_char(r@[0])
                == Some(a.rank) && file_of_char(f@[0]) == Some(a.file),
            out is None ==> r@.len() != 1 || f@.len() != 1 || rank_of_char(r@[0]) is None
                || file_of_char(f@[0]) is None,
    {
        if r.as_str().unicode_len() != 1 || f.as_str().unicode_len() != 1 {
            return None;
        }
        let rc = r.as_str().get_char(0);
        let fc = f.as_str().get_char(0);
        let rank = if rc == '1' {
            Rank::R1
        } else if rc == '2' {
            Rank::R2
        } else if rc == '3' {
            Rank::R3
        } else if rc == '4' {
            Rank::R4
        } else if rc == '5' {
            Rank::R5
        } else if rc == '6' {
            Rank::R6
        } else if rc == '7' {
            Rank::R7
        } else if rc == '8' {
            Rank::R8
        } else {
            return None;
        };
        let file = if fc == 'A' || fc == 'a' {
            File::A
        } else if fc == 'B' || fc == 'b' {
            File::B
        } else if fc == 'C' || fc == 'c' {
            File::C
        } else if fc == 'D' || fc == 'd' {
            File::D
        } else if fc == 'E' || fc == 'e' {
            File::E
        } else if fc == 'F' || fc == 'f' {
            File::F
        } else if fc == 'G' || fc == 'g' {
            File::G
        } else if fc == 'H' || fc == 'h' {
            File::H
        } else {
            return None;
        };
        Some(Rankfile { rank, file })
    }

    /// The notation tokens of this square: its rank digit and file letter,
    /// upper case.
    pub fn to_strings(&self) -> (out: (String, String))
        ensures
            out.0@ == seq![rank_char(self.rank)],
            out.1@ == seq![file_char(self.file)],
    {
        let r_str = match self.rank {
            Rank::R1 => {
                proof {
                    reveal_strlit("1");
                }
                String::from_str("1")
            },
            Rank::R2 => {
                proof {
                    reveal_strlit("2");
                }
                String::from_str("2")
            },
            Rank::R3 => {
                proof {
                    reveal_strlit("3");
                }
                String::from_str("3")
            },
            Rank::R4 => {
                proof {
                    reveal_strlit("4");
                }
                String::from_str("4")
            },
            Rank::R5 => {
                proof {
                    reveal_strlit("5");
                }
                String::from_str("5")
            },
            Rank::R6 => {
                proof {
                    reveal_strlit("6");
                }
                String::from_str("6")
            },
            Rank::R7 => {
                proof {
                    reveal_strlit("7");
                }
                String::from_str("7")
            },
            Rank::R8 => {
                proof {
                    reveal_strlit("8");
                }
                String::from_str("8")
            },
        };
        let f_str = match self.file {
            File::A => {
                proof {
                    reveal_strlit("A");
                }
                String::from_str("A")
            },
            File::B => {
                proof {
                    reveal_strlit("B");
                }
                String::from_str("B")
            },
            File::C => {
                proof {
                    reveal_strlit("C");
                }
                String::from_str("C")
            },
            File::D => {
                proof {
                    reveal_strlit("D");
                }
                String::from_str("D")
            },
            File::E => {
                proof {
                    reveal_strlit("E");
                }
                String::from_str("E")
            },
            File::F => {
                proof {
                    reveal_strlit("F");
                }
                String::from_str("F")
            },
            File::G => {
                proof {
                    reveal_strlit("G");
                }
                String::from_str("G")
            },
            File::H => {
                proof {
                    reveal_strlit("H");
                }
                String::from_str("H")
            },
        };
        proof {
            assert(r_str@ =~= seq![rank_char(self.rank)]);
            assert(f_str@ =~= seq![file_char(self.file)]);
        }
        (r_str, f_str)
    }
}

/// Law: integer coordinates and squares round-trip exactly. A pair inside
/// 0..8 builds the square with exactly those indices; a pair outside yields
/// no value; and rebuilding a square from its own indices gives it back.
pub proof fn lemma_coords_round_trip()
    ensures
        forall|r: int, f: int|
            in_bounds(r, f) ==> #[trigger] rf_from(r, f) == Some(rf_at(r, f)) && rf_at(r, f).rank_idx()
                == r && rf_at(r, f).file_idx() == f,
        forall|r: int, f: int| !in_bounds(r, f) ==> #[trigger] rf_from(r, f) is None,
        forall|a: Rankfile| #[trigger] rf_from(a.rank_idx(), a.file_idx()) == Some(a),
{
    assert forall|a: Rankfile| #[trigger] rf_from(a.rank_idx(), a.file_idx()) == Some(a) by {
        assert(Rank::at_idx(a.rank.idx()) == a.rank);
        assert(File::at_idx(a.file.idx()) == a.file);
    }
}

} // verus!
