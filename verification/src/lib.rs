//! A rules engine for Ultima, a chess variant in which every piece type
//! captures by its own mechanism: custodianship (Pawn), withdrawal
//! (Withdrawer), interception (Coordinator), leaping (Longleaper),
//! immobilization (Immobilizer) and shape-shifting (Chameleon).
//!
//! The engine enumerates, for a piece on a square of a board, every legal
//! destination together with the exact set of enemy squares vacated by that
//! move, and applies a chosen move to produce the next board state. It never
//! judges check, checkmate or game over: a King may be captured outright.

mod board;
pub mod chameleon;
pub mod coordinator;
mod executor;
pub mod immobilizer;
pub mod king;
pub mod longleaper;
mod moves;
pub mod move_validation;
pub mod pawn;
mod piece;
mod rankfile;
pub mod slider;
pub mod withdrawer;

pub use board::{GameBoard, Square};
pub use executor::{execute_move, lemma_undo_restores_mover_not_captures, move_applied, moved_square};
pub use moves::{MoveData, SpecMove};
pub use piece::{PlayerColor, UltimaPiece, UltimaPieceType};
pub use rankfile::{Direction, File, Rank, Rankfile};
