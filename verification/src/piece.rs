//! The pieces of the game: a colour and one of seven closed piece types.

use vstd::prelude::*;

verus! {

/// The two sides. No ordering is defined; colours are only compared for
/// equality and opposition.
#[derive(PartialEq, Eq, Copy, Clone, Debug, Structural)]
pub enum PlayerColor {
    Black,
    White,
}

/// The seven piece types. The set is closed: movement is decided by
/// exhaustive matches over it.
#[derive(PartialEq, Eq, Copy, Clone, Debug, Structural)]
pub enum UltimaPieceType {
    Pawn,
    Immobilizer,
    Coordinator,
    Longleaper,
    Chameleon,
    Withdrawer,
    King,
}

/// A piece is an immutable (type, colour) pair; identity is positional and
/// is not tracked across moves.
#[derive(PartialEq, Eq, Copy, Clone, Debug, Structural)]
pub struct UltimaPiece {
    pub piece_type: UltimaPieceType,
    pub color: PlayerColor,
}

} // verus!
