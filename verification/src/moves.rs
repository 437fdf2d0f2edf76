//! Moves: a start square, an end square, and the set of squares vacated
//! (captured) by the move, in the order the generating mover found them.

use vstd::prelude::*;

use crate::rankfile::Rankfile;

verus! {

/// The mathematical value of a move: its squares and its capture sequence.
pub ghost struct SpecMove {
    pub start: Rankfile,
    pub end: Rankfile,
    pub caps: Seq<Rankfile>,
}

/// A move as produced by the movers and consumed by the executor. The
/// capture set may be empty, may hold squares other than `end`, or — for
/// the King mover only — may be exactly `end` itself.
#[derive(PartialEq, Eq, Hash, Clone)]
pub struct MoveData {
    pub start: Rankfile,
    pub end: Rankfile,
    pub captures: Vec<Rankfile>,
}

impl View for MoveData {
    type V = SpecMove;

    open spec fn view(&self) -> SpecMove {
        SpecMove { start: self.start, end: self.end, caps: self.captures@ }
    }
}

impl DeepView for MoveData {
    type V = SpecMove;

    open spec fn deep_view(&self) -> SpecMove {
        self.view()
    }
}

impl MoveData {
    pub fn new(start: Rankfile, end: Rankfile, captures: Vec<Rankfile>) -> (out: MoveData)
        ensures
            out@ == (SpecMove { start, end, caps: captures@ }),
    {
        MoveData { start, end, captures }
    }
}

/// Whether `x` occurs among the squares of `v`.
pub fn contains_rf(v: &Vec<Rankfile>, x: Rankfile) -> (out: bool)
    ensures
        out == v@.contains(x),
{
    let mut i: usize = 0;
    while i < v.len()
        invariant
            0 <= i <= v@.len(),
            forall|j: int| 0 <= j < i ==> v@[j] != x,
        decreases v@.len() - i,
    {
        if v[i] == x {
            return true;
        }
        i = i + 1;
    }
    false
}

/// An element-for-element copy of a capture list.
pub fn copy_rf_vec(v: &Vec<Rankfile>) -> (out: Vec<Rankfile>)
    ensures
        out@ == v@,
{
    let mut out: Vec<Rankfile> = Vec::new();
    let mut i: usize = 0;
    while i < v.len()
        invariant
            0 <= i <= v@.len(),
            out@ == v@.take(i as int),
        decreases v@.len() - i,
    {
        out.push(v[i]);
        proof {
            assert(out@ =~= v@.take(i + 1));
        }
        i = i + 1;
    }
    proof {
        assert(v@.take(v@.len() as int) =~= v@);
    }
    out
}

/// A field-for-field copy of a move.
pub fn copy_move(m: &MoveData) -> (out: MoveData)
    ensures
        out@ == m@,
{
    MoveData { start: m.start, end: m.end, captures: copy_rf_vec(&m.captures) }
}

} // verus!
